//! A store that lives in this process.
//!
//! It has no query engine: a filter or a sort key is not looked at, and a
//! listing comes in the order of ids.
use crate::collections;
use crate::collections::{Duplicate, IdMap, StrMap};
use crate::item::{Item, ItemView, ListResult};
use crate::state::catalog;
use crate::state::catalog::ids_of;
use crate::state::paging;
use crate::state::paging::page_of_ids;
use crate::text;
use crate::text::{owned, same, to_lower};
use vstd::prelude::*;

verus! {

/// A store that lives in this process.
pub struct StoreMemory {
    collections: StrMap<IdMap<Item>>,
    internals: Item,
    settings: Item,
}

/// What a store holds.
#[verifier::ext_equal]
pub struct StoreView {
    pub collections: Map<Seq<char>, Map<u64, ItemView>>,
    pub internals: ItemView,
    pub settings: ItemView,
}

impl View for StoreMemory {
    type V = StoreView;

    closed spec fn view(&self) -> StoreView {
        StoreView {
            collections: self.collections@,
            internals: self.internals@,
            settings: self.settings@,
        }
    }
}

impl StoreView {
    /// The items of a collection; none of one that there is not.
    pub open spec fn items(self, collection: Seq<char>) -> Map<u64, ItemView> {
        if self.collections.contains_key(collection) {
            self.collections[collection]
        } else {
            Map::empty()
        }
    }

    /// The store with the items of a collection replaced.
    pub open spec fn with_items(self, collection: Seq<char>, items: Map<u64, ItemView>) -> StoreView {
        StoreView { collections: self.collections.insert(collection, items), ..self }
    }

    /// The id that a record is stored under.
    pub open spec fn target(self, collection: Seq<char>, item: ItemView) -> u64 {
        if item.id == u64::MAX {
            next_id(self.items(collection))
        } else {
            item.id
        }
    }

    /// The record that storing leaves behind.
    pub open spec fn stored(self, collection: Seq<char>, item: ItemView, merge: bool) -> ItemView {
        let id = self.target(collection, item);
        let items = self.items(collection);
        (if merge && items.contains_key(id) {
            items[id].overlaid(item)
        } else {
            item
        }).numbered(id)
    }

    /// The store after a record was stored.
    pub open spec fn after_set(self, collection: Seq<char>, item: ItemView, merge: bool) -> StoreView {
        self.with_items(
            collection,
            self.items(collection).insert(
                self.target(collection, item),
                self.stored(collection, item, merge),
            ),
        )
    }
}

/// Whether no id but the largest number there is exceeds `g`, which is one.
pub open spec fn is_greatest(items: Map<u64, ItemView>, g: u64) -> bool {
    &&& items.contains_key(g) && g != u64::MAX
    &&& forall|id: u64| #[trigger] items.contains_key(id) && id != u64::MAX ==> id <= g
}

/// The number after the greatest id; 1 where there is none.
pub open spec fn next_id(items: Map<u64, ItemView>) -> u64 {
    if exists|g: u64| is_greatest(items, g) {
        ((choose|g: u64| is_greatest(items, g)) + 1) as u64
    } else {
        1
    }
}

/// The ids of a collection in ascending order.
pub open spec fn sorted_ids(items: Map<u64, ItemView>) -> Seq<u64> {
    choose|ids: Seq<u64>| catalog::ascending_ids(ids) && ids.to_set() == items.dom()
}

/// There is one ascending list of any set of ids.
pub proof fn ascending_ids_unique(a: Seq<u64>, b: Seq<u64>)
    requires
        catalog::ascending_ids(a),
        catalog::ascending_ids(b),
        a.to_set() == b.to_set(),
    ensures
        a == b,
    decreases a.len(),
{
    if a.len() == 0 {
        if b.len() > 0 {
            assert(b.to_set().contains(b[0]));
            assert(a.contains(b[0]));
        }
        assert(a =~= b);
    } else {
        assert(a.to_set().contains(a.last()));
        assert(b.contains(a.last()));
        let j = choose|j: int| 0 <= j < b.len() && b[j] == a.last();
        assert(b.to_set().contains(b.last()));
        assert(a.contains(b.last()));
        let i = choose|i: int| 0 <= i < a.len() && a[i] == b.last();
        assert(j == b.len() - 1) by {
            if j < b.len() - 1 {
                assert(b[j] < b[b.len() - 1]);
                if i < a.len() - 1 {
                    assert(a[i] < a[a.len() - 1]);
                }
            }
        }
        let x = a.drop_last();
        let y = b.drop_last();
        assert(x.to_set() =~= y.to_set()) by {
            assert forall|k: u64| x.to_set().contains(k) <==> y.to_set().contains(k) by {
                if x.contains(k) {
                    let p = choose|p: int| 0 <= p < x.len() && x[p] == k;
                    assert(a[p] < a[a.len() - 1]);
                    assert(a.to_set().contains(a[p]));
                    assert(b.contains(k));
                    let q = choose|q: int| 0 <= q < b.len() && b[q] == k;
                    assert(y[q] == k);
                }
                if y.contains(k) {
                    let p = choose|p: int| 0 <= p < y.len() && y[p] == k;
                    assert(b[p] < b[b.len() - 1]);
                    assert(b.to_set().contains(b[p]));
                    assert(a.contains(k));
                    let q = choose|q: int| 0 <= q < a.len() && a[q] == k;
                    assert(x[q] == k);
                }
            }
        }
        ascending_ids_unique(x, y);
        assert(a =~= x.push(a.last()));
        assert(b =~= y.push(b.last()));
    }
}

fn next_of(items: &IdMap<Item>) -> (r: u64)
    ensures
        r == next_id(items@),
{
    let n: usize = items.len();
    let ghost all = items.pairs();
    let mut i: usize = n;
    while i > 0 && items.key(i - 1) == u64::MAX
        invariant
            i <= n,
            n == all.len(),
            all == items.pairs(),
            forall|j: int| i <= j < n ==> (#[trigger] all[j]).0 == u64::MAX,
        decreases i,
    {
        i = i - 1;
    }
    if i == 0 {
        proof {
            assert forall|g: u64| !is_greatest(items@, g) by {
                if is_greatest(items@, g) {
                    let j = collections::map_of_from(all, g);
                    assert(all[j].0 == u64::MAX);
                }
            }
        }
        return 1;
    }
    let greatest: u64 = items.key(i - 1);
    proof {
        collections::map_of_has(all, i - 1);
        assert forall|id: u64| #[trigger] items@.contains_key(id) && id != u64::MAX implies id
            <= greatest by {
            let j = collections::map_of_from(all, id);
            if j >= i {
                assert(all[j].0 == u64::MAX);
            } else if j < i - 1 {
                assert(all[j].0 < all[i - 1].0);
            }
        }
        assert(is_greatest(items@, greatest));
        let g = choose|g: u64| is_greatest(items@, g);
        assert(is_greatest(items@, g));
        assert(items@.contains_key(g) && items@.contains_key(greatest));
    }
    greatest + 1
}

/// Whether a field of an account is a login, in whatever case it is typed.
pub open spec fn field_is(item: ItemView, field: Seq<char>, login: Seq<char>) -> bool {
    item.strs.contains_key(field) && text::lowered(item.strs[field]) == text::lowered(login)
}

/// Whether an account goes by a login: its own, or its address.
pub open spec fn goes_by(item: ItemView, login: Seq<char>) -> bool {
    field_is(item, "login"@, login) || field_is(item, "email"@, login)
}

fn field_matches(item: &Item, field: &str, wanted: &str, login: &str) -> (r: bool)
    requires
        wanted@ == text::lowered(login@),
    ensures
        r == field_is(item@, field@, login@),
{
    match item.strs.get(field) {
        Some(v) => same(to_lower(v.as_str()).as_str(), wanted),
        None => false,
    }
}

/// An account that goes by a login, out of all accounts.
pub fn find_by_login(users: &IdMap<Item>, login: &str) -> (r: Option<Item>)
    ensures
        match r {
            Some(u) => goes_by(u@, login@) && exists|id: u64| #[trigger]
                users@.contains_key(id) && users@[id] == u@,
            None => forall|id: u64| #[trigger]
                users@.contains_key(id) ==> !goes_by(users@[id], login@),
        },
{
    let wanted = to_lower(login);
    let n: usize = users.len();
    let ghost all = users.pairs();
    let mut i: usize = 0;
    while i < n
        invariant
            i <= n,
            n == all.len(),
            all == users.pairs(),
            collections::distinct_keys(all),
            wanted@ == text::lowered(login@),
            forall|j: int| 0 <= j < i ==> !goes_by((#[trigger] all[j]).1, login@),
        decreases n - i,
    {
        let item = users.value(i);
        if field_matches(item, "login", wanted.as_str(), login) || field_matches(
            item,
            "email",
            wanted.as_str(),
            login,
        ) {
            proof {
                collections::map_of_has(all, i as int);
                assert(users@.contains_key(all[i as int].0));
            }
            return Some(item.clone());
        }
        i = i + 1;
    }
    proof {
        assert forall|id: u64| #[trigger] users@.contains_key(id) implies !goes_by(
            users@[id],
            login@,
        ) by {
            let j = collections::map_of_from(all, id);
            assert(!goes_by(all[j].1, login@));
        }
    }
    None
}

/// The page of a collection that a listing asks for.
pub open spec fn listed(
    items: Map<u64, ItemView>,
    id_min: u64,
    id_max: u64,
    skip: u64,
    limit: u64,
) -> Map<u64, ItemView> {
    items.restrict(
        paging::page(paging::ranged(sorted_ids(items), id_min, id_max), skip, limit).to_set(),
    )
}

proof fn page_is_within(ids: Seq<u64>, id_min: u64, id_max: u64, skip: u64, limit: u64, i: int)
    requires
        0 <= i < paging::page(paging::ranged(ids, id_min, id_max), skip, limit).len(),
    ensures
        ids.contains(paging::page(paging::ranged(ids, id_min, id_max), skip, limit)[i]),
{
    let hits = paging::ranged(ids, id_min, id_max);
    let p = paging::page(hits, skip, limit);
    let start = paging::page_start(hits.len(), skip);
    assert(p[i] == hits[start + i]);
    paging::ranged_within(ids, id_min, id_max, start + i);
}

impl StoreMemory {
    /// A store with the named collections, all empty.
    pub fn with_collections(names: &[&str]) -> (r: StoreMemory)
        ensures
            r@.internals == ItemView::empty(),
            r@.settings == ItemView::empty(),
            forall|c: Seq<char>|
                #![trigger r@.collections.contains_key(c)]
                {
                    &&& r@.collections.contains_key(c) <==> exists|i: int|
                        0 <= i < names@.len() && (#[trigger] names@[i])@ == c
                    &&& r@.collections.contains_key(c) ==> r@.collections[c] == Map::<
                        u64,
                        ItemView,
                    >::empty()
                },
    {
        let mut collections: StrMap<IdMap<Item>> = StrMap::new();
        let mut i: usize = 0;
        while i < names.len()
            invariant
                i <= names.len(),
                forall|c: Seq<char>|
                    #![trigger collections@.contains_key(c)]
                    {
                        &&& collections@.contains_key(c) <==> exists|j: int|
                            0 <= j < i && (#[trigger] names@[j])@ == c
                        &&& collections@.contains_key(c) ==> collections@[c] == Map::<
                            u64,
                            ItemView,
                        >::empty()
                    },
            decreases names.len() - i,
        {
            let ghost was = collections@;
            let none: IdMap<Item> = IdMap::new();
            collections.insert(owned(names[i]), none);
            proof {
                assert forall|c: Seq<char>| #![trigger collections@.contains_key(c)]
                    (collections@.contains_key(c) <==> exists|j: int|
                        0 <= j < i + 1 && (#[trigger] names@[j])@ == c) && (
                    collections@.contains_key(c) ==> collections@[c] == Map::<
                        u64,
                        ItemView,
                    >::empty()) by {
                    assert(was.contains_key(c) <==> exists|j: int|
                        0 <= j < i && (#[trigger] names@[j])@ == c);
                    if c == names@[i as int]@ {
                        assert(collections@.contains_key(c));
                    } else {
                        assert(collections@.contains_key(c) == was.contains_key(c));
                        if was.contains_key(c) {
                            let j = choose|j: int| 0 <= j < i && (#[trigger] names@[j])@ == c;
                            assert(0 <= j < i + 1 && names@[j]@ == c);
                        }
                    }
                }
            }
            i = i + 1;
        }
        StoreMemory { collections, internals: Item::new(), settings: Item::new() }
    }

    fn shelf(&mut self, collection: &str) -> (r: IdMap<Item>)
        ensures
            r@ == old(self)@.items(collection@),
            final(self)@.collections == old(self)@.collections.remove(collection@),
            final(self)@.internals == old(self)@.internals,
            final(self)@.settings == old(self)@.settings,
    {
        match self.collections.remove(collection) {
            Some(items) => items,
            None => IdMap::new(),
        }
    }

    fn reshelve(&mut self, collection: &str, items: IdMap<Item>)
        ensures
            final(self)@ == old(self)@.with_items(collection@, items@),
    {
        self.collections.insert(owned(collection), items);
    }

    /// Puts a record in as it is.
    pub fn seed(&mut self, collection: &str, item: Item)
        ensures
            final(self)@ == old(self)@.with_items(
                collection@,
                old(self)@.items(collection@).insert(item@.id, item@),
            ),
    {
        let mut items = self.shelf(collection);
        items.insert(item.id, item);
        self.reshelve(collection, items);
        proof {
            assert(self@ =~= old(self)@.with_items(
                collection@,
                old(self)@.items(collection@).insert(item@.id, item@),
            ));
        }
    }

    /// A record by its id.
    pub fn peek(&self, collection: &str, id: u64) -> (r: Option<Item>)
        ensures
            match r {
                Some(v) => self@.items(collection@).contains_key(id) && v@ == self@.items(
                    collection@,
                )[id],
                None => !self@.items(collection@).contains_key(id),
            },
    {
        match self.collections.get(collection) {
            Some(items) => match items.get(id) {
                Some(v) => Some(v.clone()),
                None => None,
            },
            None => None,
        }
    }

    /// How many records a collection has.
    pub fn count(&self, collection: &str) -> (n: usize)
        ensures
            n == self@.items(collection@).dom().len(),
    {
        match self.collections.get(collection) {
            Some(items) => items.len(),
            None => 0,
        }
    }

    /// Replaces the internals.
    pub fn set_internals(&mut self, item: Item)
        ensures
            final(self)@ == (StoreView { internals: item@, ..old(self)@ }),
    {
        self.internals = item;
    }

    /// The names of the collections, in order.
    pub fn get_collections(&self) -> (r: Vec<String>)
        ensures
            text::views(r@).no_duplicates(),
            forall|k: Seq<char>| #[trigger]
                text::views(r@).contains(k) <==> self@.collections.contains_key(k),
            forall|i: int, j: int|
                #![trigger r@[i], r@[j]]
                0 <= i < j < r@.len() ==> text::precedes(r@[i]@, r@[j]@),
    {
        self.collections.sorted_keys()
    }

    /// The ids of a collection, in order.
    pub fn get_item_ids(&self, collection: &str) -> (r: Vec<u64>)
        ensures
            catalog::ascending_ids(r@),
            r@.to_set() == self@.items(collection@).dom(),
    {
        match self.collections.get(collection) {
            Some(items) => ids_of(items),
            None => {
                let none: Vec<u64> = Vec::new();
                proof {
                    assert(none@.to_set() =~= Map::<u64, ItemView>::empty().dom());
                }
                none
            },
        }
    }

    /// All records of a collection.
    pub fn get_all_items(&self, collection: &str) -> (r: ListResult)
        ensures
            r.map@ == self@.items(collection@),
            r.total_count == self@.items(collection@).dom().len(),
    {
        let map: IdMap<Item> = match self.collections.get(collection) {
            Some(items) => items.duplicate(),
            None => IdMap::new(),
        };
        let total_count: u64 = map.len() as u64;
        ListResult { map, total_count }
    }

    /// A record by its id.
    pub fn get_item(&self, collection: &str, id: u64) -> (r: Option<Item>)
        ensures
            match r {
                Some(v) => self@.items(collection@).contains_key(id) && v@ == self@.items(
                    collection@,
                )[id],
                None => !self@.items(collection@).contains_key(id),
            },
    {
        self.peek(collection, id)
    }

    /// A page of the records whose ids lie in a range, and how many there are
    /// on all pages.
    pub fn get_items(
        &self,
        collection: &str,
        id_min: u64,
        id_max: u64,
        skip: u64,
        limit: u64,
    ) -> (r: ListResult)
        ensures
            r.map@ == listed(self@.items(collection@), id_min, id_max, skip, limit),
            r.total_count == paging::ranged(
                sorted_ids(self@.items(collection@)),
                id_min,
                id_max,
            ).len(),
    {
        let ghost items = self@.items(collection@);
        let ids = self.get_item_ids(collection);
        proof {
            assert(catalog::ascending_ids(ids@) && ids@.to_set() == items.dom());
            ascending_ids_unique(ids@, sorted_ids(items));
        }
        let (shown, total_count) = page_of_ids(&ids, id_min, id_max, skip, limit);
        let mut map: IdMap<Item> = IdMap::new();
        let mut i: usize = 0;
        proof {
            assert forall|j: int| 0 <= j < shown@.len() implies items.contains_key(
                #[trigger] shown@[j],
            ) by {
                page_is_within(ids@, id_min, id_max, skip, limit, j);
                assert(ids@.to_set().contains(shown@[j]));
            }
            assert(map@ =~= items.restrict(shown@.take(0).to_set()));
        }
        while i < shown.len()
            invariant
                i <= shown.len(),
                items == self@.items(collection@),
                map@ == items.restrict(shown@.take(i as int).to_set()),
                forall|j: int| 0 <= j < shown@.len() ==> items.contains_key(#[trigger] shown@[j]),
            decreases shown.len() - i,
        {
            let ghost before = shown@.take(i as int);
            let ghost after = shown@.take(i + 1);
            match self.peek(collection, shown[i]) {
                Some(v) => {
                    map.insert(shown[i], v);
                },
                None => {},
            }
            proof {
                assert(after =~= before.push(shown@[i as int]));
                assert forall|k: u64| after.to_set().contains(k) <==> before.to_set().contains(k)
                    || k == shown@[i as int] by {
                    if before.contains(k) {
                        let x = choose|x: int| 0 <= x < before.len() && before[x] == k;
                        assert(after[x] == k);
                    }
                    if k == shown@[i as int] {
                        assert(after[i as int] == k);
                    }
                }
                assert(map@ =~= items.restrict(after.to_set()));
            }
            i = i + 1;
        }
        proof {
            assert(shown@.take(shown@.len() as int) =~= shown@);
        }
        ListResult { map, total_count }
    }

    /// Stores a record, new or in place of another, and returns its id. An
    /// unset id allocates a new one; with `merge`, fields the record does not
    /// have keep their stored values.
    pub fn set_item(&mut self, collection: &str, itm: &Item, merge: bool) -> (id: u64)
        ensures
            id == old(self)@.target(collection@, itm@),
            final(self)@ == old(self)@.after_set(collection@, itm@, merge),
    {
        let mut items = self.shelf(collection);
        let id: u64 = if itm.id == u64::MAX {
            next_of(&items)
        } else {
            itm.id
        };
        let mut stored = match items.get(id) {
            Some(was) => {
                let mut base = was.clone();
                if merge {
                    base.merge(itm);
                    base
                } else {
                    itm.clone()
                }
            },
            None => itm.clone(),
        };
        stored.id = id;
        proof {
            assert(stored@ =~= old(self)@.stored(collection@, itm@, merge));
        }
        items.insert(id, stored);
        self.reshelve(collection, items);
        proof {
            assert(self@ =~= old(self)@.after_set(collection@, itm@, merge));
        }
        id
    }

    /// Deletes a record. Returns whether it was there.
    pub fn del_item(&mut self, collection: &str, id: u64) -> (r: bool)
        ensures
            r == old(self)@.items(collection@).contains_key(id),
            final(self)@ == if old(self)@.collections.contains_key(collection@) {
                old(self)@.with_items(collection@, old(self)@.items(collection@).remove(id))
            } else {
                old(self)@
            },
    {
        if !self.collections.contains_key(collection) {
            return false;
        }
        let mut items = self.shelf(collection);
        let there = items.remove(id).is_some();
        self.reshelve(collection, items);
        proof {
            assert(self@ =~= old(self)@.with_items(
                collection@,
                old(self)@.items(collection@).remove(id),
            ));
        }
        there
    }

    /// The internals.
    pub fn get_internals(&self) -> (r: Item)
        ensures
            r@ == self@.internals,
    {
        self.internals.clone()
    }

    /// The settings.
    pub fn get_settings(&self) -> (r: Item)
        ensures
            r@ == self@.settings,
    {
        self.settings.clone()
    }

    /// Replaces the settings.
    pub fn set_settings(&mut self, itm: Item) -> (r: bool)
        ensures
            r,
            final(self)@ == (StoreView { settings: itm@, ..old(self)@ }),
    {
        self.settings = itm;
        true
    }

    /// Whether there is a collection of this name.
    pub fn has_collection(&self, collection: &str) -> (r: bool)
        ensures
            r == self@.collections.contains_key(collection@),
    {
        self.collections.contains_key(collection)
    }

    /// An account that goes by a login, where there is one.
    pub fn find_user(&self, login: &str) -> (r: Option<Item>)
        ensures
            match r {
                Some(u) => goes_by(u@, login@) && exists|id: u64| #[trigger]
                    self@.items("user"@).contains_key(id) && self@.items("user"@)[id] == u@,
                None => forall|id: u64| #[trigger]
                    self@.items("user"@).contains_key(id) ==> !goes_by(
                        self@.items("user"@)[id],
                        login@,
                    ),
            },
    {
        match self.collections.get("user") {
            Some(users) => {
                proof {
                    assert(users@ == self@.items("user"@));
                }
                let found = find_by_login(users, login);
                proof {
                    if found is Some {
                        let id = choose|id: u64| #[trigger]
                            users@.contains_key(id) && users@[id] == found->Some_0@;
                        assert(self@.items("user"@).contains_key(id));
                    }
                }
                found
            },
            None => None,
        }
    }
}

/// What was stored is read back, and nothing else of the store has changed.
pub proof fn stored_is_read_back(
    s: StoreView,
    collection: Seq<char>,
    item: ItemView,
    merge: bool,
    other: Seq<char>,
    id: u64,
)
    ensures
        ({
            let after = s.after_set(collection, item, merge);
            let at = s.target(collection, item);
            &&& after.items(collection).contains_key(at)
            &&& after.items(collection)[at] == s.stored(collection, item, merge)
            &&& after.items(collection)[at].id == at
            &&& (other != collection || id != at) ==> (after.items(other).contains_key(id)
                <==> s.items(other).contains_key(id)) && (s.items(other).contains_key(id)
                ==> after.items(other)[id] == s.items(other)[id])
            &&& after.internals == s.internals && after.settings == s.settings
        }),
{
}

/// A new record never lands on one that is there, until the numbers run out.
pub proof fn new_ids_are_fresh(s: StoreView, collection: Seq<char>, item: ItemView)
    requires
        item.id == u64::MAX,
        s.target(collection, item) < u64::MAX,
    ensures
        !s.items(collection).contains_key(s.target(collection, item)),
{
    let items = s.items(collection);
    let at = s.target(collection, item);
    if items.contains_key(at) {
        if exists|g: u64| is_greatest(items, g) {
            let g = choose|g: u64| is_greatest(items, g);
            assert(is_greatest(items, g));
            assert(at <= g);
        } else {
            numbers_have_a_greatest(items, at);
        }
    }
}

proof fn numbers_have_a_greatest(items: Map<u64, ItemView>, a: u64)
    requires
        items.contains_key(a),
        a < u64::MAX,
    ensures
        exists|g: u64| is_greatest(items, g),
    decreases u64::MAX - a,
{
    if is_greatest(items, a) {
    } else {
        let c = choose|id: u64| #[trigger] items.contains_key(id) && id != u64::MAX && id > a;
        numbers_have_a_greatest(items, c);
    }
}

/// A record that was deleted is gone, and deleting it again finds nothing.
pub proof fn deleted_is_gone(s: StoreView, collection: Seq<char>, id: u64)
    ensures
        !s.with_items(collection, s.items(collection).remove(id)).items(collection).contains_key(
            id,
        ),
{
}

/// A new record gets the number after the greatest, and the first where there is none.
pub proof fn which_number_a_record_gets(items: Map<u64, ItemView>, g: u64)
    ensures
        items.contains_key(g) && g < u64::MAX && (forall|id: u64| #[trigger]
            items.contains_key(id) && id != u64::MAX ==> id <= g) ==> next_id(items) == g + 1,
        (forall|id: u64| id < u64::MAX ==> !#[trigger] items.contains_key(id)) ==> next_id(items)
            == 1,
{
    if items.contains_key(g) && g < u64::MAX && (forall|id: u64| #[trigger]
        items.contains_key(id) && id != u64::MAX ==> id <= g) {
        assert(is_greatest(items, g));
        let h = choose|h: u64| is_greatest(items, h);
        assert(is_greatest(items, h));
        assert(h == g);
    }
}

/// A record is stored under its own number where it has one; merged into what is there
/// where that is asked for, and in place of it otherwise.
pub proof fn what_storing_leaves(
    s: StoreView,
    collection: Seq<char>,
    item: ItemView,
    k: Seq<char>,
)
    requires
        item.id != u64::MAX,
    ensures
        s.target(collection, item) == item.id,
        s.stored(collection, item, false) == item,
        s.items(collection).contains_key(item.id) ==> ({
            let was = s.items(collection)[item.id];
            let now = s.stored(collection, item, true);
            &&& item.strs.contains_key(k) ==> now.strs.get(k) == item.strs.get(k)
            &&& !item.strs.contains_key(k) ==> now.strs.get(k) == was.strs.get(k)
            &&& item.bools.contains_key(k) ==> now.bools.get(k) == item.bools.get(k)
            &&& !item.bools.contains_key(k) ==> now.bools.get(k) == was.bools.get(k)
            &&& item.u64s.contains_key(k) ==> now.u64s.get(k) == item.u64s.get(k)
            &&& !item.u64s.contains_key(k) ==> now.u64s.get(k) == was.u64s.get(k)
            &&& item.ids.contains_key(k) ==> now.ids.get(k) == item.ids.get(k)
            &&& !item.ids.contains_key(k) ==> now.ids.get(k) == was.ids.get(k)
            &&& now.id == item.id
        }),
        !s.items(collection).contains_key(item.id) ==> s.stored(collection, item, true) == item,
{
}

/// An account goes by its login and by its address, in whatever case they are typed,
/// and by nothing else.
pub proof fn what_an_account_goes_by(item: ItemView, login: Seq<char>)
    ensures
        goes_by(item, login) <==> ({
            ||| item.strs.contains_key("login"@) && text::lowered(item.strs["login"@])
                == text::lowered(login)
            ||| item.strs.contains_key("email"@) && text::lowered(item.strs["email"@])
                == text::lowered(login)
        }),
        item.strs.contains_key("login"@) ==> goes_by(item, item.strs["login"@]),
        item.strs.contains_key("email"@) ==> goes_by(item, item.strs["email"@]),
{
}

/// A page lists records as they are, none that is not there, and none out of its range.
pub proof fn what_a_listing_holds(
    items: Map<u64, ItemView>,
    ids: Seq<u64>,
    id_min: u64,
    id_max: u64,
    skip: u64,
    limit: u64,
    id: u64,
)
    requires
        catalog::ascending_ids(ids),
        ids.to_set() == items.dom(),
    ensures
        ({
            let l = listed(items, id_min, id_max, skip, limit);
            &&& l.contains_key(id) ==> items.contains_key(id) && l[id] == items[id]
                && paging::in_range(id, id_min, id_max)
            &&& l.contains_key(id) <==> items.contains_key(id) && paging::page(
                paging::ranged(ids, id_min, id_max),
                skip,
                limit,
            ).contains(id)
        }),
        sorted_ids(items) == ids,
{
    let found = sorted_ids(items);
    assert(catalog::ascending_ids(found) && found.to_set() == items.dom());
    ascending_ids_unique(found, ids);
    let all = paging::ranged(ids, id_min, id_max);
    let p = paging::page(all, skip, limit);
    if p.contains(id) {
        let i = choose|i: int| 0 <= i < p.len() && p[i] == id;
        let start = paging::page_start(all.len(), skip);
        assert(p[i] == all[start + i]);
        paging::ranged_within(ids, id_min, id_max, start + i);
    }
}

} // verus!
