//! Maps keyed by names and by ids.
//!
//! `StrMap` keeps its entries in the order in which the keys first came;
//! `IdMap` keeps them in ascending order of id. Neither ever holds a key twice.
//! The view of either is a mathematical map from keys to the views of the
//! values; `pairs()` is the same content as a sequence, for loops.
use crate::text;
use crate::text::{same, sort_names};
use vstd::prelude::*;

verus! {

/// A value that can be copied out of a borrow without changing what it holds.
pub trait Duplicate: View + Sized {
    /// A second value with the same view.
    fn duplicate(&self) -> (r: Self)
        ensures
            r@ == self@,
    ;
}

impl Duplicate for String {
    fn duplicate(&self) -> (r: Self) {
        self.clone()
    }
}

impl Duplicate for bool {
    fn duplicate(&self) -> (r: Self) {
        *self
    }
}

impl Duplicate for u64 {
    fn duplicate(&self) -> (r: Self) {
        *self
    }
}

impl Duplicate for Vec<u64> {
    fn duplicate(&self) -> (r: Self) {
        let mut r: Vec<u64> = Vec::new();
        let mut i: usize = 0;
        while i < self.len()
            invariant
                i <= self.len(),
                r@ == self@.take(i as int),
            decreases self.len() - i,
        {
            r.push(self[i]);
            i = i + 1;
        }
        proof {
            assert(self@.take(self@.len() as int) =~= self@);
        }
        r
    }
}

/// Whether no key occurs twice.
pub open spec fn distinct_keys<K, A>(pairs: Seq<(K, A)>) -> bool {
    forall|i: int, j: int|
        #![trigger pairs[i], pairs[j]]
        0 <= i < j < pairs.len() ==> pairs[i].0 != pairs[j].0
}

/// Whether `k` is the key of the entry at `i`.
pub open spec fn key_at<K, A>(pairs: Seq<(K, A)>, k: K, i: int) -> bool {
    0 <= i < pairs.len() && pairs[i].0 == k
}

/// The map that a sequence of entries stands for.
pub open spec fn map_of<K, A>(pairs: Seq<(K, A)>) -> Map<K, A> {
    Map::new(
        |k: K| exists|i: int| #[trigger] key_at(pairs, k, i),
        |k: K| pairs[choose|i: int| #[trigger] key_at(pairs, k, i)].1,
    )
}

/// Each entry is in the map.
pub proof fn map_of_has<K, A>(pairs: Seq<(K, A)>, i: int)
    requires
        distinct_keys(pairs),
        0 <= i < pairs.len(),
    ensures
        map_of(pairs).contains_key(pairs[i].0),
        map_of(pairs)[pairs[i].0] == pairs[i].1,
{
    let k = pairs[i].0;
    assert(key_at(pairs, k, i));
    let c = choose|j: int| #[trigger] key_at(pairs, k, j);
    assert(key_at(pairs, k, c));
    if c < i {
        assert(pairs[c].0 != pairs[i].0);
    } else if i < c {
        assert(pairs[i].0 != pairs[c].0);
    }
}

/// A key of the map is the key of some entry.
pub proof fn map_of_from<K, A>(pairs: Seq<(K, A)>, k: K) -> (i: int)
    requires
        map_of(pairs).contains_key(k),
    ensures
        0 <= i < pairs.len(),
        pairs[i].0 == k,
        map_of(pairs)[k] == pairs[i].1,
{
    choose|j: int| #[trigger] key_at(pairs, k, j)
}

/// A key of no entry is not in the map.
pub proof fn map_of_lacks<K, A>(pairs: Seq<(K, A)>, k: K)
    requires
        forall|i: int| 0 <= i < pairs.len() ==> (#[trigger] pairs[i]).0 != k,
    ensures
        !map_of(pairs).contains_key(k),
{
    assert forall|i: int| !#[trigger] key_at(pairs, k, i) by {
        if 0 <= i < pairs.len() {
            assert(pairs[i].0 != k);
        }
    }
}

/// The map of no entries.
pub proof fn map_of_none<K, A>(pairs: Seq<(K, A)>)
    requires
        pairs.len() == 0,
    ensures
        map_of(pairs) == Map::<K, A>::empty(),
{
    assert(map_of(pairs) =~= Map::<K, A>::empty());
}

/// Changing the value of an entry.
pub proof fn map_of_update<K, A>(pairs: Seq<(K, A)>, i: int, v: A)
    requires
        distinct_keys(pairs),
        0 <= i < pairs.len(),
    ensures
        distinct_keys(pairs.update(i, (pairs[i].0, v))),
        map_of(pairs.update(i, (pairs[i].0, v))) == map_of(pairs).insert(pairs[i].0, v),
{
    let k = pairs[i].0;
    let q = pairs.update(i, (k, v));
    assert(distinct_keys(q)) by {
        assert forall|a: int, b: int| 0 <= a < b < q.len() implies q[a].0 != q[b].0 by {
            assert(pairs[a].0 != pairs[b].0);
        }
    }
    assert(map_of(q) =~= map_of(pairs).insert(k, v)) by {
        assert forall|x: K| #[trigger] map_of(q).contains_key(x) implies map_of(pairs).insert(
            k,
            v,
        ).contains_key(x) && map_of(q)[x] == map_of(pairs).insert(k, v)[x] by {
            let j = map_of_from(q, x);
            map_of_has(pairs, j);
            map_of_has(q, j);
            map_of_has(q, i);
        }
        assert forall|x: K| #[trigger]
            map_of(pairs).insert(k, v).contains_key(x) implies map_of(q).contains_key(x) by {
            if x == k {
                map_of_has(q, i);
            } else {
                let j = map_of_from(pairs, x);
                map_of_has(q, j);
            }
        }
    }
}

/// Putting in an entry with a new key, anywhere.
pub proof fn map_of_insert<K, A>(pairs: Seq<(K, A)>, i: int, k: K, v: A)
    requires
        distinct_keys(pairs),
        0 <= i <= pairs.len(),
        forall|j: int| 0 <= j < pairs.len() ==> (#[trigger] pairs[j]).0 != k,
    ensures
        distinct_keys(pairs.insert(i, (k, v))),
        map_of(pairs.insert(i, (k, v))) == map_of(pairs).insert(k, v),
{
    let q = pairs.insert(i, (k, v));
    assert(distinct_keys(q)) by {
        assert forall|a: int, b: int| 0 <= a < b < q.len() implies q[a].0 != q[b].0 by {
            let a1 = if a < i { a } else { a - 1 };
            let b1 = if b < i { b } else { b - 1 };
            if a != i && b != i {
                assert(pairs[a1].0 != pairs[b1].0);
            } else if a == i {
                assert(pairs[b1].0 != k);
            } else {
                assert(pairs[a1].0 != k);
            }
        }
    }
    assert(map_of(q) =~= map_of(pairs).insert(k, v)) by {
        assert forall|x: K| #[trigger] map_of(q).contains_key(x) implies map_of(pairs).insert(
            k,
            v,
        ).contains_key(x) && map_of(q)[x] == map_of(pairs).insert(k, v)[x] by {
            let j = map_of_from(q, x);
            map_of_has(q, i);
            map_of_has(q, j);
            if j < i {
                map_of_has(pairs, j);
            } else if j > i {
                map_of_has(pairs, j - 1);
            }
        }
        assert forall|x: K| #[trigger]
            map_of(pairs).insert(k, v).contains_key(x) implies map_of(q).contains_key(x) by {
            if x == k {
                map_of_has(q, i);
            } else {
                let j = map_of_from(pairs, x);
                if j < i {
                    map_of_has(q, j);
                } else {
                    map_of_has(q, j + 1);
                }
            }
        }
    }
}

/// Taking an entry out.
pub proof fn map_of_remove<K, A>(pairs: Seq<(K, A)>, i: int)
    requires
        distinct_keys(pairs),
        0 <= i < pairs.len(),
    ensures
        distinct_keys(pairs.remove(i)),
        map_of(pairs.remove(i)) == map_of(pairs).remove(pairs[i].0),
{
    let k = pairs[i].0;
    let q = pairs.remove(i);
    assert(distinct_keys(q)) by {
        assert forall|a: int, b: int| 0 <= a < b < q.len() implies q[a].0 != q[b].0 by {
            let a1 = if a < i { a } else { a + 1 };
            let b1 = if b < i { b } else { b + 1 };
            assert(pairs[a1].0 != pairs[b1].0);
        }
    }
    assert(map_of(q) =~= map_of(pairs).remove(k)) by {
        assert forall|x: K| #[trigger] map_of(q).contains_key(x) implies map_of(pairs).remove(
            k,
        ).contains_key(x) && map_of(q)[x] == map_of(pairs)[x] by {
            let j = map_of_from(q, x);
            let j1 = if j < i { j } else { j + 1 };
            map_of_has(pairs, j1);
            if j1 < i {
                assert(pairs[j1].0 != pairs[i].0);
            } else {
                assert(pairs[i].0 != pairs[j1].0);
            }
        }
        assert forall|x: K| #[trigger] map_of(pairs).remove(k).contains_key(x) implies map_of(
            q,
        ).contains_key(x) by {
            let j = map_of_from(pairs, x);
            if j < i {
                map_of_has(q, j);
            } else {
                map_of_has(q, j - 1);
            }
        }
    }
}

/// A map from names to values.
pub struct StrMap<V> {
    entries: Vec<(String, V)>,
}

impl<V> StrMap<V> {
    #[verifier::type_invariant]
    closed spec fn keys_differ(self) -> bool {
        forall|i: int, j: int|
            #![trigger self.entries@[i], self.entries@[j]]
            0 <= i < j < self.entries@.len() ==> self.entries@[i].0@ != self.entries@[j].0@
    }
}

impl<V: View> View for StrMap<V> {
    type V = Map<Seq<char>, V::V>;

    open spec fn view(&self) -> Map<Seq<char>, V::V> {
        map_of(self.pairs())
    }
}

impl<V: View> StrMap<V> {
    /// The entries, in the order in which their keys first came.
    pub closed spec fn pairs(&self) -> Seq<(Seq<char>, V::V)> {
        Seq::new(self.entries@.len(), |i: int| (self.entries@[i].0@, self.entries@[i].1@))
    }

    /// The map without entries.
    pub fn new() -> (r: Self)
        ensures
            r@ == Map::<Seq<char>, V::V>::empty(),
            r.pairs().len() == 0,
    {
        let r = StrMap { entries: Vec::new() };
        proof {
            map_of_none(r.pairs());
        }
        r
    }

    /// How many entries there are.
    pub fn len(&self) -> (n: usize)
        ensures
            n == self.pairs().len(),
            distinct_keys(self.pairs()),
    {
        proof {
            use_type_invariant(self);
            assert forall|i: int, j: int| 0 <= i < j < self.pairs().len() implies self.pairs()[i].0
                != self.pairs()[j].0 by {
                assert(self.entries@[i].0@ != self.entries@[j].0@);
            }
        }
        self.entries.len()
    }

    /// Whether there are no entries.
    pub fn is_empty(&self) -> (r: bool)
        ensures
            r == (self@ == Map::<Seq<char>, V::V>::empty()),
            r == (self.pairs().len() == 0),
    {
        let n: usize = self.len();
        proof {
            if n == 0 {
                map_of_none(self.pairs());
            } else {
                map_of_has(self.pairs(), 0);
                assert(self@.contains_key(self.pairs()[0].0));
            }
        }
        n == 0
    }

    /// The name of the entry at `i`.
    pub fn key(&self, i: usize) -> (k: &String)
        requires
            i < self.pairs().len(),
        ensures
            k@ == self.pairs()[i as int].0,
    {
        &self.entries[i].0
    }

    /// The value of the entry at `i`.
    pub fn value(&self, i: usize) -> (v: &V)
        requires
            i < self.pairs().len(),
        ensures
            v@ == self.pairs()[i as int].1,
    {
        &self.entries[i].1
    }

    fn index(&self, k: &str) -> (r: Option<usize>)
        ensures
            match r {
                Some(i) => i < self.entries@.len() && self.entries@[i as int].0@ == k@,
                None => forall|i: int|
                    0 <= i < self.entries@.len() ==> (#[trigger] self.entries@[i]).0@ != k@,
            },
            distinct_keys(self.pairs()),
    {
        let n: usize = self.len();
        let mut i: usize = 0;
        while i < n
            invariant
                n == self.entries@.len(),
                i <= n,
                distinct_keys(self.pairs()),
                forall|j: int| 0 <= j < i ==> (#[trigger] self.entries@[j]).0@ != k@,
            decreases n - i,
        {
            if same(self.entries[i].0.as_str(), k) {
                return Some(i);
            }
            i = i + 1;
        }
        None
    }

    /// The value under a name, where there is one.
    pub fn get(&self, k: &str) -> (r: Option<&V>)
        ensures
            match r {
                Some(v) => self@.contains_key(k@) && v@ == self@[k@],
                None => !self@.contains_key(k@),
            },
    {
        match self.index(k) {
            Some(i) => {
                proof {
                    map_of_has(self.pairs(), i as int);
                }
                Some(&self.entries[i].1)
            },
            None => {
                proof {
                    assert forall|i: int| 0 <= i < self.pairs().len() implies (
                    #[trigger] self.pairs()[i]).0 != k@ by {
                        assert(self.entries@[i].0@ != k@);
                    }
                    map_of_lacks(self.pairs(), k@);
                }
                None
            },
        }
    }

    /// Whether there is a value under the name.
    pub fn contains_key(&self, k: &str) -> (r: bool)
        ensures
            r == self@.contains_key(k@),
    {
        self.get(k).is_some()
    }

    /// Puts a value under a name, in place of the one that was there.
    pub fn insert(&mut self, k: String, v: V)
        ensures
            final(self)@ == old(self)@.insert(k@, v@),
    {
        let at = self.index(k.as_str());
        let ghost before = self.pairs();
        proof {
            use_type_invariant(&*self);
        }
        let mut entries: Vec<(String, V)> = Vec::new();
        std::mem::swap(&mut entries, &mut self.entries);
        match at {
            Some(i) => {
                let ghost was = entries@;
                let entry = (k, v);
                entries.set(i, entry);
                proof {
                    map_of_update(before, i as int, v@);
                    assert(before[i as int].0 == k@);
                    assert forall|a: int, b: int| 0 <= a < b < entries@.len() implies (
                    #[trigger] entries@[a]).0@ != (#[trigger] entries@[b]).0@ by {
                        assert(was[a].0@ != was[b].0@);
                    }
                }
                self.entries = entries;
                proof {
                    assert(self.pairs() =~= before.update(i as int, (k@, v@)));
                }
            },
            None => {
                let ghost was = entries@;
                proof {
                    assert forall|i: int| 0 <= i < before.len() implies (#[trigger] before[i]).0
                        != k@ by {
                        assert(was[i].0@ != k@);
                    }
                    map_of_insert(before, before.len() as int, k@, v@);
                }
                entries.push((k, v));
                proof {
                    assert forall|a: int, b: int| 0 <= a < b < entries@.len() implies (
                    #[trigger] entries@[a]).0@ != (#[trigger] entries@[b]).0@ by {
                        if b < was.len() {
                            assert(was[a].0@ != was[b].0@);
                        } else {
                            assert(was[a].0@ != k@);
                        }
                    }
                }
                self.entries = entries;
                proof {
                    assert(self.pairs() =~= before.insert(before.len() as int, (k@, v@)));
                }
            },
        }
    }

    /// Takes the value under a name out.
    pub fn remove(&mut self, k: &str) -> (r: Option<V>)
        ensures
            final(self)@ == old(self)@.remove(k@),
            match r {
                Some(v) => old(self)@.contains_key(k@) && v@ == old(self)@[k@],
                None => !old(self)@.contains_key(k@),
            },
    {
        let at = self.index(k);
        let ghost before = self.pairs();
        proof {
            use_type_invariant(&*self);
        }
        match at {
            Some(i) => {
                let mut entries: Vec<(String, V)> = Vec::new();
                std::mem::swap(&mut entries, &mut self.entries);
                let ghost was = entries@;
                let (_key, v) = entries.remove(i);
                proof {
                    map_of_has(before, i as int);
                    map_of_remove(before, i as int);
                    assert forall|a: int, b: int| 0 <= a < b < entries@.len() implies (
                    #[trigger] entries@[a]).0@ != (#[trigger] entries@[b]).0@ by {
                        let a1 = if a < i { a } else { a + 1 };
                        let b1 = if b < i { b } else { b + 1 };
                        assert(was[a1].0@ != was[b1].0@);
                    }
                }
                self.entries = entries;
                proof {
                    assert(self.pairs() =~= before.remove(i as int));
                }
                Some(v)
            },
            None => {
                proof {
                    assert forall|i: int| 0 <= i < before.len() implies (#[trigger] before[i]).0
                        != k@ by {
                        assert(self.entries@[i].0@ != k@);
                    }
                    map_of_lacks(before, k@);
                    assert(self@ =~= self@.remove(k@));
                }
                None
            },
        }
    }
}

impl<V: View> StrMap<V> {
    /// Takes the values under all of these names out.
    pub fn remove_all(&mut self, names: &Vec<String>)
        ensures
            final(self)@ == old(self)@.remove_keys(text::views(names@).to_set()),
    {
        let ghost was = self@;
        let mut d: usize = 0;
        proof {
            assert(text::views(names@).take(0).to_set() =~= Set::<Seq<char>>::empty());
            assert(self@ =~= was.remove_keys(text::views(names@).take(0).to_set()));
        }
        while d < names.len()
            invariant
                d <= names.len(),
                self@ == was.remove_keys(text::views(names@).take(d as int).to_set()),
            decreases names.len() - d,
        {
            self.remove(names[d].as_str());
            proof {
                let done = text::views(names@).take(d as int);
                let more = text::views(names@).take(d + 1);
                let name = names@[d as int]@;
                assert(more =~= done.push(name));
                assert(more.to_set() =~= done.to_set().insert(name)) by {
                    assert forall|x: Seq<char>| done.to_set().insert(name).contains(
                        x,
                    ) implies more.contains(x) by {
                        if x == name {
                            assert(more[d as int] == x);
                        } else {
                            let y = choose|y: int| 0 <= y < done.len() && done[y] == x;
                            assert(more[y] == x);
                        }
                    }
                    assert forall|x: Seq<char>| more.to_set().contains(
                        x,
                    ) implies done.to_set().insert(name).contains(x) by {
                        let y = choose|y: int| 0 <= y < more.len() && more[y] == x;
                        if y < done.len() {
                            assert(done[y] == x);
                        }
                    }
                }
                assert(self@ =~= was.remove_keys(more.to_set()));
            }
            d = d + 1;
        }
        proof {
            assert(text::views(names@).take(names@.len() as int) =~= text::views(names@));
        }
    }

    /// The names, in order, each once.
    pub fn sorted_keys(&self) -> (r: Vec<String>)
        ensures
            text::views(r@).no_duplicates(),
            r@.len() == self@.dom().len(),
            self@.dom().finite(),
            forall|k: Seq<char>| #[trigger]
                text::views(r@).contains(k) <==> self@.contains_key(k),
            forall|i: int, j: int|
                #![trigger r@[i], r@[j]]
                0 <= i < j < r@.len() ==> text::precedes(r@[i]@, r@[j]@),
    {
        let n: usize = self.len();
        let ghost all = self.pairs();
        let mut keys: Vec<String> = Vec::new();
        let mut i: usize = 0;
        while i < n
            invariant
                i <= n,
                n == all.len(),
                self.pairs() == all,
                keys@.len() == i,
                forall|j: int| 0 <= j < i ==> (#[trigger] keys@[j])@ == all[j].0,
            decreases n - i,
        {
            keys.push(self.key(i).clone());
            i = i + 1;
        }
        let r = sort_names(&keys);
        proof {
            let ks = text::views(keys@);
            assert forall|a: int, b: int| 0 <= a < ks.len() && 0 <= b < ks.len() && a
                != b implies ks[a] != ks[b] by {
                if a < b {
                    assert(all[a].0 != all[b].0);
                } else {
                    assert(all[b].0 != all[a].0);
                }
            }
            text::sorted_distinct(ks);
            text::sorted_is_sorted(ks);
            map_of_size(all);
            assert forall|k: Seq<char>| #[trigger]
                text::views(r@).contains(k) <==> self@.contains_key(k) by {
                if ks.contains(k) {
                    let j = choose|j: int| 0 <= j < ks.len() && ks[j] == k;
                    map_of_has(all, j);
                }
                if self@.contains_key(k) {
                    let j = map_of_from(all, k);
                    assert(ks[j] == k);
                }
            }
            assert forall|a: int, b: int| 0 <= a < b < r@.len() implies text::precedes(
                (#[trigger] r@[a])@,
                (#[trigger] r@[b])@,
            ) by {
                assert(text::sorted(ks)[a] == r@[a]@);
                assert(text::sorted(ks)[b] == r@[b]@);
            }
        }
        r
    }
}

impl<V: Duplicate> Duplicate for StrMap<V> {
    fn duplicate(&self) -> (r: Self) {
        let n: usize = self.len();
        let mut r: StrMap<V> = StrMap::new();
        let mut i: usize = 0;
        proof {
            map_of_none(self.pairs().take(0));
        }
        while i < n
            invariant
                n == self.pairs().len(),
                i <= n,
                distinct_keys(self.pairs()),
                r@ == map_of(self.pairs().take(i as int)),
            decreases n - i,
        {
            proof {
                map_of_grow(self.pairs(), i as int);
            }
            r.insert(self.key(i).duplicate(), self.value(i).duplicate());
            i = i + 1;
        }
        proof {
            assert(self.pairs().take(n as int) =~= self.pairs());
        }
        r
    }
}


/// Whether the ids ascend.
pub open spec fn ascending<A>(pairs: Seq<(u64, A)>) -> bool {
    forall|i: int, j: int|
        #![trigger pairs[i], pairs[j]]
        0 <= i < j < pairs.len() ==> pairs[i].0 < pairs[j].0
}

/// Ids that ascend differ.
pub proof fn ascending_distinct<A>(pairs: Seq<(u64, A)>)
    requires
        ascending(pairs),
    ensures
        distinct_keys(pairs),
{
    assert forall|i: int, j: int| 0 <= i < j < pairs.len() implies pairs[i].0 != pairs[j].0 by {
        assert(pairs[i].0 < pairs[j].0);
    }
}

/// A map from ids to values, in ascending order of id.
pub struct IdMap<V> {
    entries: Vec<(u64, V)>,
}

impl<V> IdMap<V> {
    #[verifier::type_invariant]
    closed spec fn ids_ascend(self) -> bool {
        ascending(self.entries@)
    }
}

impl<V: View> View for IdMap<V> {
    type V = Map<u64, V::V>;

    open spec fn view(&self) -> Map<u64, V::V> {
        map_of(self.pairs())
    }
}

impl<V: View> IdMap<V> {
    /// The entries, in ascending order of id.
    pub closed spec fn pairs(&self) -> Seq<(u64, V::V)> {
        Seq::new(self.entries@.len(), |i: int| (self.entries@[i].0, self.entries@[i].1@))
    }

    /// The map without entries.
    pub fn new() -> (r: Self)
        ensures
            r@ == Map::<u64, V::V>::empty(),
            r.pairs().len() == 0,
    {
        let r = IdMap { entries: Vec::new() };
        proof {
            map_of_none(r.pairs());
        }
        r
    }

    /// How many entries there are.
    pub fn len(&self) -> (n: usize)
        ensures
            n == self.pairs().len(),
            n == self@.dom().len(),
            self@.dom().finite(),
            ascending(self.pairs()),
            distinct_keys(self.pairs()),
    {
        proof {
            use_type_invariant(self);
            assert(ascending(self.pairs())) by {
                assert forall|i: int, j: int| 0 <= i < j < self.pairs().len() implies (
                #[trigger] self.pairs()[i]).0 < (#[trigger] self.pairs()[j]).0 by {
                    assert(self.entries@[i].0 < self.entries@[j].0);
                }
            }
            ascending_distinct(self.pairs());
            map_of_size(self.pairs());
        }
        self.entries.len()
    }

    /// The id of the entry at `i`.
    pub fn key(&self, i: usize) -> (k: u64)
        requires
            i < self.pairs().len(),
        ensures
            k == self.pairs()[i as int].0,
    {
        self.entries[i].0
    }

    /// The value of the entry at `i`.
    pub fn value(&self, i: usize) -> (v: &V)
        requires
            i < self.pairs().len(),
        ensures
            v@ == self.pairs()[i as int].1,
    {
        &self.entries[i].1
    }

    /// The place of an id: that of the first entry with no smaller id.
    fn place(&self, k: u64) -> (p: usize)
        ensures
            p <= self.entries@.len(),
            forall|i: int| 0 <= i < p ==> (#[trigger] self.entries@[i]).0 < k,
            forall|i: int| p <= i < self.entries@.len() ==> (#[trigger] self.entries@[i]).0 >= k,
            ascending(self.pairs()),
            distinct_keys(self.pairs()),
    {
        let n: usize = self.len();
        proof {
            use_type_invariant(self);
        }
        let mut i: usize = 0;
        while i < n && self.entries[i].0 < k
            invariant
                n == self.entries@.len(),
                i <= n,
                forall|j: int| 0 <= j < i ==> (#[trigger] self.entries@[j]).0 < k,
            decreases n - i,
        {
            i = i + 1;
        }
        i
    }

    /// The value under an id, where there is one.
    pub fn get(&self, k: u64) -> (r: Option<&V>)
        ensures
            match r {
                Some(v) => self@.contains_key(k) && v@ == self@[k],
                None => !self@.contains_key(k),
            },
    {
        let p: usize = self.place(k);
        if p < self.entries.len() && self.entries[p].0 == k {
            proof {
                map_of_has(self.pairs(), p as int);
            }
            Some(&self.entries[p].1)
        } else {
            proof {
                use_type_invariant(self);
                assert forall|i: int| 0 <= i < self.pairs().len() implies (
                #[trigger] self.pairs()[i]).0 != k by {
                    if i < p {
                        assert(self.entries@[i].0 < k);
                    } else if i > p {
                        assert(self.entries@[p as int].0 < self.entries@[i].0);
                    }
                }
                map_of_lacks(self.pairs(), k);
            }
            None
        }
    }

    /// Whether there is a value under the id.
    pub fn contains_key(&self, k: u64) -> (r: bool)
        ensures
            r == self@.contains_key(k),
    {
        self.get(k).is_some()
    }

    /// Puts a value under an id, in place of the one that was there.
    pub fn insert(&mut self, k: u64, v: V)
        ensures
            final(self)@ == old(self)@.insert(k, v@),
    {
        let p: usize = self.place(k);
        let ghost before = self.pairs();
        proof {
            use_type_invariant(&*self);
        }
        let mut entries: Vec<(u64, V)> = Vec::new();
        std::mem::swap(&mut entries, &mut self.entries);
        let ghost was = entries@;
        if p < entries.len() && entries[p].0 == k {
            let entry = (k, v);
            entries.set(p, entry);
            proof {
                map_of_update(before, p as int, v@);
                assert forall|a: int, b: int| 0 <= a < b < entries@.len() implies (
                #[trigger] entries@[a]).0 < (#[trigger] entries@[b]).0 by {
                    assert(was[a].0 < was[b].0);
                }
            }
            self.entries = entries;
            proof {
                assert(self.pairs() =~= before.update(p as int, (k, v@)));
            }
        } else {
            proof {
                assert forall|i: int| 0 <= i < before.len() implies (#[trigger] before[i]).0
                    != k by {
                    if i < p {
                        assert(was[i].0 < k);
                    } else if i > p {
                        assert(was[p as int].0 < was[i].0);
                    }
                }
                map_of_insert(before, p as int, k, v@);
            }
            entries.insert(p, (k, v));
            proof {
                assert forall|a: int, b: int| 0 <= a < b < entries@.len() implies (
                #[trigger] entries@[a]).0 < (#[trigger] entries@[b]).0 by {
                    if b < p {
                        assert(was[a].0 < was[b].0);
                    } else if b == p {
                        assert(was[a].0 < k);
                    } else if a < p {
                        assert(was[a].0 < k);
                        assert(was[b - 1].0 >= k);
                    } else if a == p {
                        assert(was[b - 1].0 >= k);
                        assert(before[b - 1].0 != k);
                    } else {
                        assert(was[a - 1].0 < was[b - 1].0);
                    }
                }
            }
            self.entries = entries;
            proof {
                assert(self.pairs() =~= before.insert(p as int, (k, v@)));
            }
        }
    }

    /// Takes the value under an id out.
    pub fn remove(&mut self, k: u64) -> (r: Option<V>)
        ensures
            final(self)@ == old(self)@.remove(k),
            match r {
                Some(v) => old(self)@.contains_key(k) && v@ == old(self)@[k],
                None => !old(self)@.contains_key(k),
            },
    {
        let p: usize = self.place(k);
        let ghost before = self.pairs();
        proof {
            use_type_invariant(&*self);
        }
        if p < self.entries.len() && self.entries[p].0 == k {
            let mut entries: Vec<(u64, V)> = Vec::new();
            std::mem::swap(&mut entries, &mut self.entries);
            let ghost was = entries@;
            let (_key, v) = entries.remove(p);
            proof {
                map_of_has(before, p as int);
                map_of_remove(before, p as int);
                assert forall|a: int, b: int| 0 <= a < b < entries@.len() implies (
                #[trigger] entries@[a]).0 < (#[trigger] entries@[b]).0 by {
                    let a1 = if a < p { a } else { a + 1 };
                    let b1 = if b < p { b } else { b + 1 };
                    assert(was[a1].0 < was[b1].0);
                }
            }
            self.entries = entries;
            proof {
                assert(self.pairs() =~= before.remove(p as int));
            }
            Some(v)
        } else {
            proof {
                assert forall|i: int| 0 <= i < before.len() implies (#[trigger] before[i]).0
                    != k by {
                    if i < p {
                        assert(self.entries@[i].0 < k);
                    } else if i > p {
                        assert(self.entries@[p as int].0 < self.entries@[i].0);
                    }
                }
                map_of_lacks(before, k);
                assert(self@ =~= self@.remove(k));
            }
            None
        }
    }
}

/// A sequence of entries with different keys has as many entries as its map.
pub proof fn map_of_size<K, A>(pairs: Seq<(K, A)>)
    requires
        distinct_keys(pairs),
    ensures
        map_of(pairs).dom().finite(),
        map_of(pairs).dom().len() == pairs.len(),
    decreases pairs.len(),
{
    if pairs.len() == 0 {
        map_of_none(pairs);
    } else {
        let last = pairs.len() - 1;
        let rest = pairs.drop_last();
        map_of_remove(pairs, last);
        assert(pairs.remove(last) =~= rest);
        map_of_size(rest);
        map_of_has(pairs, last);
        let k = pairs[last].0;
        assert(map_of(rest).dom() =~= map_of(pairs).dom().remove(k));
        assert(map_of(pairs).dom() =~= map_of(rest).dom().insert(k));
    }
}

impl<V: Duplicate> Duplicate for IdMap<V> {
    fn duplicate(&self) -> (r: Self) {
        let n: usize = self.len();
        let mut r: IdMap<V> = IdMap::new();
        let mut i: usize = 0;
        proof {
            map_of_none(self.pairs().take(0));
        }
        while i < n
            invariant
                n == self.pairs().len(),
                i <= n,
                distinct_keys(self.pairs()),
                r@ == map_of(self.pairs().take(i as int)),
            decreases n - i,
        {
            proof {
                map_of_grow(self.pairs(), i as int);
            }
            r.insert(self.key(i), self.value(i).duplicate());
            i = i + 1;
        }
        proof {
            assert(self.pairs().take(n as int) =~= self.pairs());
        }
        r
    }
}

/// One entry more of a sequence of entries.
pub proof fn map_of_grow<K, A>(pairs: Seq<(K, A)>, i: int)
    requires
        distinct_keys(pairs),
        0 <= i < pairs.len(),
    ensures
        distinct_keys(pairs.take(i)),
        !map_of(pairs.take(i)).contains_key(pairs[i].0),
        map_of(pairs.take(i + 1)) == map_of(pairs.take(i)).insert(pairs[i].0, pairs[i].1),
{
    let done = pairs.take(i);
    assert(distinct_keys(done)) by {
        assert forall|a: int, b: int| 0 <= a < b < done.len() implies (#[trigger] done[a]).0 != (
        #[trigger] done[b]).0 by {
            assert(pairs[a].0 != pairs[b].0);
        }
    }
    assert forall|j: int| 0 <= j < done.len() implies (#[trigger] done[j]).0 != pairs[i].0 by {
        assert(pairs[j].0 != pairs[i].0);
    }
    map_of_lacks(done, pairs[i].0);
    map_of_insert(done, i, pairs[i].0, pairs[i].1);
    assert(pairs.take(i + 1) =~= done.insert(i, (pairs[i].0, pairs[i].1)));
}

} // verus!
