//! The universal record and the envelopes that carry it.
//!
//! A record keeps its values in maps by type rather than in named fields, so a
//! collection's shape is a convention. Contracts speak of `ItemView`, the
//! record with its maps as mathematical maps.
use crate::collections;
use crate::collections::{Duplicate, IdMap, StrMap};
use crate::text::owned;
use vstd::prelude::*;

verus! {

/// The id of a record that has none yet.
pub const UNSET_ID: u64 = u64::MAX;

/// What a record holds.
#[verifier::ext_equal]
pub struct ItemView {
    pub id: u64,
    pub strs: Map<Seq<char>, Seq<char>>,
    pub strstrs: Map<Seq<char>, Map<Seq<char>, Seq<char>>>,
    pub strids: Map<Seq<char>, Seq<u64>>,
    pub bools: Map<Seq<char>, bool>,
    pub u64s: Map<Seq<char>, u64>,
    pub ids: Map<Seq<char>, u64>,
}

/// What a map holds under a key, or the default.
pub open spec fn or_default<K, A>(m: Map<K, A>, k: K, d: A) -> A {
    if m.contains_key(k) {
        m[k]
    } else {
        d
    }
}

impl ItemView {
    /// The record with nothing in it and no id.
    pub open spec fn empty() -> ItemView {
        ItemView {
            id: UNSET_ID,
            strs: Map::empty(),
            strstrs: Map::empty(),
            strids: Map::empty(),
            bools: Map::empty(),
            u64s: Map::empty(),
            ids: Map::empty(),
        }
    }

    /// The string under a key, or the default.
    pub open spec fn str(self, k: Seq<char>, d: Seq<char>) -> Seq<char> {
        or_default(self.strs, k, d)
    }

    /// The flag under a key, or the default.
    pub open spec fn bool(self, k: Seq<char>, d: bool) -> bool {
        or_default(self.bools, k, d)
    }

    /// The number under a key, or the default.
    pub open spec fn u64(self, k: Seq<char>, d: u64) -> u64 {
        or_default(self.u64s, k, d)
    }

    /// The reference under a key, or the default.
    pub open spec fn reference(self, k: Seq<char>, d: u64) -> u64 {
        or_default(self.ids, k, d)
    }

    /// This record with the values of another laid over it. The id stays.
    pub open spec fn overlaid(self, top: ItemView) -> ItemView {
        ItemView {
            id: self.id,
            strs: self.strs.union_prefer_right(top.strs),
            strstrs: self.strstrs.union_prefer_right(top.strstrs),
            strids: self.strids.union_prefer_right(top.strids),
            bools: self.bools.union_prefer_right(top.bools),
            u64s: self.u64s.union_prefer_right(top.u64s),
            ids: self.ids.union_prefer_right(top.ids),
        }
    }

    /// This record under another id.
    pub open spec fn numbered(self, id: u64) -> ItemView {
        ItemView { id, ..self }
    }

    /// This record with a string put under a key.
    pub open spec fn with_str(self, k: Seq<char>, v: Seq<char>) -> ItemView {
        ItemView { strs: self.strs.insert(k, v), ..self }
    }

    /// This record with a flag put under a key.
    pub open spec fn with_bool(self, k: Seq<char>, v: bool) -> ItemView {
        ItemView { bools: self.bools.insert(k, v), ..self }
    }

    /// This record without the flag under a key.
    pub open spec fn without_bool(self, k: Seq<char>) -> ItemView {
        ItemView { bools: self.bools.remove(k), ..self }
    }

    /// This record with a number put under a key.
    pub open spec fn with_u64(self, k: Seq<char>, v: u64) -> ItemView {
        ItemView { u64s: self.u64s.insert(k, v), ..self }
    }

    /// This record with a reference put under a key.
    pub open spec fn with_id(self, k: Seq<char>, v: u64) -> ItemView {
        ItemView { ids: self.ids.insert(k, v), ..self }
    }

    /// This record with a group of string pairs put under a key.
    pub open spec fn with_strstr(
        self,
        k: Seq<char>,
        v: Map<Seq<char>, Seq<char>>,
    ) -> ItemView {
        ItemView { strstrs: self.strstrs.insert(k, v), ..self }
    }
}

/// The universal record.
pub struct Item {
    pub id: u64,
    pub strs: StrMap<String>,
    pub strstrs: StrMap<StrMap<String>>,
    pub strids: StrMap<Vec<u64>>,
    pub bools: StrMap<bool>,
    pub u64s: StrMap<u64>,
    pub ids: StrMap<u64>,
}

impl View for Item {
    type V = ItemView;

    open spec fn view(&self) -> ItemView {
        ItemView {
            id: self.id,
            strs: self.strs@,
            strstrs: self.strstrs@,
            strids: self.strids@,
            bools: self.bools@,
            u64s: self.u64s@,
            ids: self.ids@,
        }
    }
}

impl Duplicate for Item {
    fn duplicate(&self) -> (r: Self) {
        Item {
            id: self.id,
            strs: self.strs.duplicate(),
            strstrs: self.strstrs.duplicate(),
            strids: self.strids.duplicate(),
            bools: self.bools.duplicate(),
            u64s: self.u64s.duplicate(),
            ids: self.ids.duplicate(),
        }
    }
}

impl Clone for Item {
    fn clone(&self) -> (r: Self)
        ensures
            r@ == self@,
    {
        self.duplicate()
    }
}

/// Lays the entries of one map over another.
pub fn overlay<V: Duplicate>(base: &mut StrMap<V>, top: &StrMap<V>)
    ensures
        final(base)@ == old(base)@.union_prefer_right(top@),
{
    let n: usize = top.len();
    let mut i: usize = 0;
    proof {
        collections::map_of_none(top.pairs().take(0));
        assert(base@ =~= base@.union_prefer_right(Map::<Seq<char>, V::V>::empty()));
    }
    while i < n
        invariant
            n == top.pairs().len(),
            i <= n,
            collections::distinct_keys(top.pairs()),
            base@ == old(base)@.union_prefer_right(
                collections::map_of(top.pairs().take(i as int)),
            ),
        decreases n - i,
    {
        let ghost m = collections::map_of(top.pairs().take(i as int));
        let ghost k = top.pairs()[i as int].0;
        let ghost v = top.pairs()[i as int].1;
        proof {
            collections::map_of_grow(top.pairs(), i as int);
            assert(old(base)@.union_prefer_right(m).insert(k, v) =~= old(
                base,
            )@.union_prefer_right(m.insert(k, v)));
        }
        base.insert(top.key(i).duplicate(), top.value(i).duplicate());
        i = i + 1;
    }
    proof {
        assert(top.pairs().take(n as int) =~= top.pairs());
    }
}

impl Item {
    /// The record with nothing in it and no id.
    pub fn new() -> (r: Self)
        ensures
            r@ == ItemView::empty(),
    {
        Item {
            id: UNSET_ID,
            strs: StrMap::new(),
            strstrs: StrMap::new(),
            strids: StrMap::new(),
            bools: StrMap::new(),
            u64s: StrMap::new(),
            ids: StrMap::new(),
        }
    }

    /// The string under a key, or the default.
    pub fn safe_str(&self, k: &str, d: &str) -> (r: String)
        ensures
            r@ == self@.str(k@, d@),
    {
        match self.strs.get(k) {
            Some(v) => v.clone(),
            None => owned(d),
        }
    }

    /// The flag under a key, or the default.
    pub fn safe_bool(&self, k: &str, d: bool) -> (r: bool)
        ensures
            r == self@.bool(k@, d),
    {
        match self.bools.get(k) {
            Some(v) => *v,
            None => d,
        }
    }

    /// The number under a key, or the default.
    pub fn safe_u64(&self, k: &str, d: u64) -> (r: u64)
        ensures
            r == self@.u64(k@, d),
    {
        match self.u64s.get(k) {
            Some(v) => *v,
            None => d,
        }
    }

    /// The reference under a key, or the default.
    pub fn safe_id(&self, k: &str, d: u64) -> (r: u64)
        ensures
            r == self@.reference(k@, d),
    {
        match self.ids.get(k) {
            Some(v) => *v,
            None => d,
        }
    }

    /// The group of string pairs under a key; empty when there is none.
    pub fn safe_strstr(&self, k: &str) -> (r: StrMap<String>)
        ensures
            r@ == or_default(self@.strstrs, k@, Map::empty()),
    {
        match self.strstrs.get(k) {
            Some(v) => v.duplicate(),
            None => StrMap::new(),
        }
    }

    /// Puts a string under a key.
    pub fn set_str(&mut self, k: &str, v: &str)
        ensures
            final(self)@ == old(self)@.with_str(k@, v@),
    {
        self.strs.insert(owned(k), owned(v));
    }

    /// Puts a flag under a key.
    pub fn set_bool(&mut self, k: &str, v: bool)
        ensures
            final(self)@ == old(self)@.with_bool(k@, v),
    {
        self.bools.insert(owned(k), v);
    }

    /// Puts a number under a key.
    pub fn set_u64(&mut self, k: &str, v: u64)
        ensures
            final(self)@ == old(self)@.with_u64(k@, v),
    {
        self.u64s.insert(owned(k), v);
    }

    /// Puts a reference under a key.
    pub fn set_id(&mut self, k: &str, v: u64)
        ensures
            final(self)@ == old(self)@.with_id(k@, v),
    {
        self.ids.insert(owned(k), v);
    }

    /// Puts a group of string pairs under a key.
    pub fn set_strstr(&mut self, k: &str, v: &StrMap<String>)
        ensures
            final(self)@ == old(self)@.with_strstr(k@, v@),
    {
        self.strstrs.insert(owned(k), v.duplicate());
    }

    /// Lays the values of another record over this one. The id stays.
    pub fn merge(&mut self, top: &Item)
        ensures
            final(self)@ == old(self)@.overlaid(top@),
    {
        overlay(&mut self.strs, &top.strs);
        overlay(&mut self.strstrs, &top.strstrs);
        overlay(&mut self.strids, &top.strids);
        overlay(&mut self.bools, &top.bools);
        overlay(&mut self.u64s, &top.u64s);
        overlay(&mut self.ids, &top.ids);
    }
}

/// Laying the same values over a record twice is laying them once.
pub proof fn overlaid_twice(base: ItemView, top: ItemView)
    ensures
        base.overlaid(top).overlaid(top) == base.overlaid(top),
{
    assert(base.overlaid(top).overlaid(top) =~= base.overlaid(top));
}

/// A record with nothing in it changes nothing.
pub proof fn overlaid_with_nothing(base: ItemView, id: u64)
    ensures
        base.overlaid(ItemView::empty().numbered(id)) == base,
{
    assert(base.overlaid(ItemView::empty().numbered(id)) =~= base);
}

/// The outcome envelope. It travels with a success status as well, so
/// `succeeded` has to be read.
pub struct ProcessResult {
    pub succeeded: bool,
    pub error: String,
    pub data: StrMap<String>,
}

impl ProcessResult {
    /// An outcome with nothing attached.
    pub fn plain(succeeded: bool, error: &str) -> (r: ProcessResult)
        ensures
            r.succeeded == succeeded,
            r.error@ == error@,
            r.data@ == Map::<Seq<char>, Seq<char>>::empty(),
    {
        ProcessResult { succeeded, error: owned(error), data: StrMap::new() }
    }
}

/// A page of records by id, and how many matched before paging.
pub struct ListResult {
    pub map: IdMap<Item>,
    pub total_count: u64,
}

} // verus!
