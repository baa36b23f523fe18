//! A store of files.
//!
//! A collection is a directory, an item is a directory in it that is named by
//! the item's id, and the highest number handed out stands in a file beside
//! them. What is read and written is decided here; the reading and writing is
//! left to the caller.
use crate::collections::IdMap;
use crate::item::{Item, ItemView, ListResult};
use crate::state::catalog;
use crate::state::catalog::{Catalog, Shelf, ShelfView};
use crate::state::paging;
use crate::state::paging::page_of_ids;
use crate::state::store;
use crate::state::store::{read_config_or_empty, storable, ConfigRead};
use crate::state::store_memory;
use crate::state::store_memory::find_by_login;
use crate::text;
use crate::text::{cat, cat3, decimal_string, parse_number, trim};
use vstd::prelude::*;

verus! {

/// A store of files.
pub struct StoreLocal {
    /// The directory that everything is in.
    pub path: String,
    /// The collections, and the ids in them.
    pub catalog: Catalog,
    /// The internals, once they were read. They are not read again.
    pub internals_cache: Option<Item>,
}

/// The counter that a file holds, where it holds one.
pub open spec fn counter_in(content: Option<Seq<char>>) -> Option<u64> {
    match content {
        Some(c) => text::number(text::trimmed(c)),
        None => None,
    }
}

/// The ids that directories are named by.
pub open spec fn ids_named(names: Seq<Seq<char>>) -> Set<u64> {
    Set::new(
        |id: u64|
            exists|i: int| 0 <= i < names.len() && text::number(#[trigger] names[i]) == Some(id),
    )
}

/// What is known of a collection when the store is opened. Where its counter
/// cannot be read, nothing is.
pub open spec fn shelf_found(content: Option<Seq<char>>, names: Seq<Seq<char>>) -> ShelfView {
    match counter_in(content) {
        Some(high) => ShelfView { ids: ids_named(names), high },
        None => ShelfView::bare(),
    }
}

impl StoreLocal {
    /// A store that has not been opened.
    pub fn new() -> (r: StoreLocal)
        ensures
            r.path@.len() == 0,
            r.catalog@ == Map::<Seq<char>, ShelfView>::empty(),
            r.internals_cache is None,
    {
        StoreLocal { path: String::new(), catalog: Catalog::new(), internals_cache: None }
    }

    /// Registers a collection that was found when the store was opened:
    /// `counter` is what its counter file holds, and `names` are the names of
    /// the directories in it.
    pub fn register(&mut self, collection: &str, counter: Option<&str>, names: &Vec<String>)
        requires
            forall|i: int|
                0 <= i < names@.len() ==> text::number((#[trigger] names@[i])@) is Some,
        ensures
            final(self).path@ == old(self).path@,
            final(self).internals_cache == old(self).internals_cache,
            final(self).catalog@ == old(self).catalog@.insert(
                collection@,
                shelf_found(
                    match counter {
                        Some(c) => Some(c@),
                        None => None,
                    },
                    text::views(names@),
                ),
            ),
    {
        let high = match counter {
            Some(c) => parse_number(trim(c).as_str()),
            None => None,
        };
        let mut ids: IdMap<bool> = IdMap::new();
        match high {
            Some(h) => {
                let ghost all = text::views(names@);
                let mut i: usize = 0;
                proof {
                    assert(ids@.dom() =~= ids_named(all.take(0)));
                }
                while i < names.len()
                    invariant
                        i <= names.len(),
                        all == text::views(names@),
                        ids@.dom() == ids_named(all.take(i as int)),
                        forall|j: int|
                            0 <= j < names@.len() ==> text::number((#[trigger] names@[j])@) is Some,
                    decreases names.len() - i,
                {
                    let ghost before = all.take(i as int);
                    let ghost after = all.take(i + 1);
                    match parse_number(names[i].as_str()) {
                        Some(id) => {
                            ids.insert(id, true);
                        },
                        None => {},
                    }
                    proof {
                        let here = text::number(names@[i as int]@)->Some_0;
                        assert forall|id: u64| ids_named(after).contains(id) <==> ids_named(
                            before,
                        ).contains(id) || id == here by {
                            if ids_named(before).contains(id) {
                                let x = choose|x: int|
                                    0 <= x < before.len() && text::number(#[trigger] before[x])
                                        == Some(id);
                                assert(after[x] == before[x]);
                            }
                            if id == here {
                                assert(text::number(after[i as int]) == Some(id));
                            }
                            if ids_named(after).contains(id) {
                                let x = choose|x: int|
                                    0 <= x < after.len() && text::number(#[trigger] after[x])
                                        == Some(id);
                                if x < i {
                                    assert(before[x] == after[x]);
                                }
                            }
                        }
                        assert(ids@.dom() =~= ids_named(after));
                    }
                    i = i + 1;
                }
                proof {
                    assert(all.take(names@.len() as int) =~= all);
                }
                let shelf = Shelf { ids, high: h };
                self.catalog.put(collection, shelf);
            },
            None => {
                let shelf = Shelf { ids, high: 0 };
                proof {
                    assert(shelf@ =~= ShelfView::bare());
                }
                self.catalog.put(collection, shelf);
            },
        }
    }

    // -----------------------------------------------------------------------
    // Where things stand
    // -----------------------------------------------------------------------

    /// The directory of a collection.
    pub open spec fn collection_place(self, collection: Seq<char>) -> Seq<char> {
        self.path@ + "/collection/"@ + collection
    }

    /// The directory of a collection.
    pub fn collection_path(&self, collection: &str) -> (r: String)
        ensures
            r@ == self.collection_place(collection@),
    {
        cat3(self.path.as_str(), "/collection/", collection)
    }

    /// The file that holds a collection's counter.
    pub fn counter_path(&self, collection: &str) -> (r: String)
        ensures
            r@ == self.collection_place(collection@) + "/cnt"@,
    {
        cat(self.collection_path(collection).as_str(), "/cnt")
    }

    /// The directory of an item.
    pub open spec fn item_place(self, collection: Seq<char>, id: u64) -> Seq<char> {
        self.collection_place(collection) + "/"@ + text::decimal(id as nat)
    }

    /// The directory of an item.
    pub fn item_path(&self, collection: &str, id: u64) -> (r: String)
        ensures
            r@ == self.item_place(collection@, id),
    {
        cat3(
            self.collection_path(collection).as_str(),
            "/",
            decimal_string(id).as_str(),
        )
    }

    /// The file that holds an item.
    pub open spec fn data_place(self, collection: Seq<char>, id: u64) -> Seq<char> {
        self.item_place(collection, id) + "/data.js"@
    }

    /// The file that holds an item.
    pub fn data_path(&self, collection: &str, id: u64) -> (r: String)
        ensures
            r@ == self.data_place(collection@, id),
    {
        cat(self.item_path(collection, id).as_str(), "/data.js")
    }

    /// What is removed, with all that is in it, when an item is deleted: its
    /// directory.
    pub fn removed_path(&self, collection: &str, id: u64) -> (r: String)
        ensures
            r@ == self.item_place(collection@, id),
    {
        self.item_path(collection, id)
    }

    /// The file with the credentials.
    pub fn get_credentials(&self) -> (r: String)
        ensures
            r@ == self.path@ + "/credentials.json"@,
    {
        cat(self.path.as_str(), "/credentials.json")
    }

    /// The file with the token.
    pub fn get_pickle(&self) -> (r: String)
        ensures
            r@ == self.path@ + "/token.pickle"@,
    {
        cat(self.path.as_str(), "/token.pickle")
    }

    /// The file with the internals.
    pub fn internals_path(&self) -> (r: String)
        ensures
            r@ == self.path@ + "/internals.js"@,
    {
        cat(self.path.as_str(), "/internals.js")
    }

    /// The file with the settings.
    pub fn settings_path(&self) -> (r: String)
        ensures
            r@ == self.path@ + "/settings.js"@,
    {
        cat(self.path.as_str(), "/settings.js")
    }

    // -----------------------------------------------------------------------
    // Reading
    // -----------------------------------------------------------------------

    /// The ids on a page of a collection, and how many there are on all pages.
    pub fn list_ids(
        &self,
        collection: &str,
        id_min: u64,
        id_max: u64,
        skip: u64,
        limit: u64,
    ) -> (r: (Vec<u64>, u64))
        requires
            self.catalog@.contains_key(collection@),
        ensures
            exists|ids: Seq<u64>| #[trigger]
                catalog::ascending_ids(ids) && ids.to_set() == self.catalog@[collection@].ids
                    && r.0@ == paging::page(paging::ranged(ids, id_min, id_max), skip, limit)
                    && r.1 == paging::ranged(ids, id_min, id_max).len(),
    {
        let ids = self.catalog.item_ids(collection);
        page_of_ids(&ids, id_min, id_max, skip, limit)
    }

    /// The internals, where they were read before.
    pub fn cached_internals(&self) -> (r: Option<Item>)
        ensures
            match self.internals_cache {
                Some(i) => r is Some && r->Some_0@ == i@,
                None => r is None,
            },
    {
        match &self.internals_cache {
            Some(i) => Some(i.clone()),
            None => None,
        }
    }

    /// The internals, given what reading their file gave. They are kept, so
    /// that later changes of the file make no difference.
    pub fn get_internals(&mut self, read: ConfigRead) -> (r: Item)
        ensures
            final(self).path@ == old(self).path@,
            final(self).catalog@ == old(self).catalog@,
            final(self).internals_cache is Some,
            final(self).internals_cache->Some_0@ == r@,
            r@ == match old(self).internals_cache {
                Some(i) => i@,
                None => match read {
                    ConfigRead::Item(itm) => itm@,
                    _ => ItemView::empty(),
                },
            },
    {
        match self.cached_internals() {
            Some(i) => i,
            None => {
                let (itm, _) = read_config_or_empty(read);
                self.internals_cache = Some(itm.clone());
                itm
            },
        }
    }

    // -----------------------------------------------------------------------
    // Writing
    // -----------------------------------------------------------------------

    /// The record to store for a write: without what is for the write alone, and
    /// with a new number where it has none and the collection is registered.
    pub fn begin_write(&mut self, collection: &str, exp_itm: &Item) -> (r: Item)
        ensures
            final(self).path@ == old(self).path@,
            final(self).internals_cache == old(self).internals_cache,
            ({
                let clean = exp_itm@.without_bool(store::WRITE_ONLY_FLAG@);
                let was = old(self).catalog@;
                if exp_itm@.id == u64::MAX && was.contains_key(collection@) {
                    let shelf = was[collection@];
                    r@ == clean.numbered(shelf.next()) && final(self).catalog@ == was.insert(
                        collection@,
                        shelf.allocated(),
                    )
                } else {
                    r@ == clean && final(self).catalog@ == was
                }
            }),
    {
        let mut itm = storable(exp_itm);
        if itm.id == u64::MAX {
            match self.catalog.allocate(collection) {
                Some(id) => {
                    itm.id = id;
                },
                None => {},
            }
        }
        itm
    }

    /// Notes that an item was written. Returns the text of the counter file
    /// where it has to be written too.
    pub fn end_write(&mut self, collection: &str, id: u64) -> (r: Option<String>)
        ensures
            final(self).path@ == old(self).path@,
            final(self).internals_cache == old(self).internals_cache,
            if old(self).catalog@.contains_key(collection@) {
                let shelf = old(self).catalog@[collection@];
                &&& final(self).catalog@ == old(self).catalog@.insert(
                    collection@,
                    shelf.with_id(id),
                )
                &&& if id >= shelf.high {
                    r is Some && r->Some_0@ == text::decimal(id as nat)
                } else {
                    r is None
                }
            } else {
                r is None && final(self).catalog@ == old(self).catalog@
            },
    {
        if self.catalog.note(collection, id) {
            Some(decimal_string(id))
        } else {
            None
        }
    }

    /// Notes that an item was deleted. Returns whether it was there.
    pub fn del_item(&mut self, collection: &str, id: u64) -> (r: bool)
        requires
            old(self).catalog@.contains_key(collection@),
        ensures
            final(self).path@ == old(self).path@,
            final(self).internals_cache == old(self).internals_cache,
            r == old(self).catalog@[collection@].ids.contains(id),
            final(self).catalog@ == if r {
                old(self).catalog@.insert(
                    collection@,
                    (ShelfView {
                        ids: old(self).catalog@[collection@].ids.remove(id),
                        ..old(self).catalog@[collection@]
                    }),
                )
            } else {
                old(self).catalog@
            },
    {
        self.catalog.forget(collection, id)
    }
}

/// The records of a page, given what reading each gave. A record that could not
/// be read is left out, and is still counted.
pub fn page_read(ids: &Vec<u64>, found: Vec<Option<Item>>, total_count: u64) -> (r: ListResult)
    requires
        found@.len() == ids@.len(),
        forall|i: int, j: int|
            #![trigger ids@[i], ids@[j]]
            0 <= i < j < ids@.len() ==> ids@[i] != ids@[j],
    ensures
        r.total_count == total_count,
        forall|id: u64|
            #![trigger r.map@.contains_key(id)]
            r.map@.contains_key(id) <==> exists|i: int|
                0 <= i < ids@.len() && #[trigger] ids@[i] == id && found@[i] is Some,
        forall|i: int|
            #![trigger ids@[i]]
            0 <= i < ids@.len() && found@[i] is Some ==> r.map@[ids@[i]] == found@[i]->Some_0@,
{
    let ghost all = found@;
    let mut rest = found;
    let mut map: IdMap<Item> = IdMap::new();
    let mut i: usize = 0;
    while i < ids.len()
        invariant
            i <= ids.len(),
            all.len() == ids@.len(),
            rest@ == all.skip(i as int),
            forall|a: int, b: int|
                #![trigger ids@[a], ids@[b]]
                0 <= a < b < ids@.len() ==> ids@[a] != ids@[b],
            forall|id: u64|
                #![trigger map@.contains_key(id)]
                map@.contains_key(id) <==> exists|j: int|
                    0 <= j < i && #[trigger] ids@[j] == id && all[j] is Some,
            forall|j: int|
                #![trigger ids@[j]]
                0 <= j < i && all[j] is Some ==> map@[ids@[j]] == all[j]->Some_0@,
        decreases ids.len() - i,
    {
        let ghost was = map@;
        let one = rest.remove(0);
        proof {
            assert(one == all[i as int]);
            assert(rest@ =~= all.skip(i + 1));
        }
        match one {
            Some(v) => {
                map.insert(ids[i], v);
            },
            None => {},
        }
        proof {
            let here = ids@[i as int];
            assert forall|id: u64| #![trigger map@.contains_key(id)] map@.contains_key(id) <==> exists|j: int|
                0 <= j < i + 1 && #[trigger] ids@[j] == id && all[j] is Some by {
                if was.contains_key(id) {
                    let j = choose|j: int| 0 <= j < i && #[trigger] ids@[j] == id && all[j] is Some;
                    assert(0 <= j < i + 1 && ids@[j] == id && all[j] is Some);
                }
                if id == here && all[i as int] is Some {
                    assert(ids@[i as int] == id);
                }
                if exists|j: int|
                    0 <= j < i + 1 && #[trigger] ids@[j] == id && all[j] is Some {
                    let j = choose|j: int|
                        0 <= j < i + 1 && #[trigger] ids@[j] == id && all[j] is Some;
                    if j < i {
                        assert(was.contains_key(id));
                    }
                }
            }
        }
        i = i + 1;
    }
    ListResult { map, total_count }
}

/// An account that goes by a login, out of all accounts that were read.
pub fn find_user(users: &ListResult, login: &str) -> (r: Option<Item>)
    ensures
        match r {
            Some(u) => store_memory::goes_by(u@, login@) && exists|id: u64| #[trigger]
                users.map@.contains_key(id) && users.map@[id] == u@,
            None => forall|id: u64| #[trigger]
                users.map@.contains_key(id) ==> !store_memory::goes_by(users.map@[id], login@),
        },
{
    find_by_login(&users.map, login)
}

/// What a write counts up to is what the store counts from when it is opened
/// again: the counter that is written reads back as the highest number there is.
pub proof fn counter_survives(shelf: ShelfView, id: u64)
    requires
        id >= shelf.high,
    ensures
        counter_in(Some(text::decimal(id as nat))) == Some(shelf.with_id(id).high),
{
    text::decimal_value(id as nat);
    text::number_of_decimal(id);
    let d = text::decimal(id as nat);
    assert forall|i: int| 0 <= i < d.len() implies !text::white_space(#[trigger] d[i]) by {
        assert(text::is_digit(d[i]));
    }
    assert(!text::white_space(d[0]) && !text::white_space(d[d.len() - 1]));
    text::trimmed_fixed(d);
}

/// The files that are left once a directory was removed with all that is in it.
pub open spec fn files_left(files: Map<Seq<char>, ItemView>, dir: Seq<char>) -> Map<
    Seq<char>,
    ItemView,
> {
    Map::new(
        |p: Seq<char>| files.contains_key(p) && !(dir + "/"@).is_prefix_of(p),
        |p: Seq<char>| files[p],
    )
}

/// A deleted item is not found again: its file is gone with its directory, while
/// those of the other items of the collection stay.
pub proof fn deleted_is_not_found(
    store: StoreLocal,
    files: Map<Seq<char>, ItemView>,
    collection: Seq<char>,
    id: u64,
    other: u64,
)
    requires
        other != id,
    ensures
        ({
            let left = files_left(files, store.item_place(collection, id));
            let place = store.data_place(collection, other);
            &&& !left.contains_key(store.data_place(collection, id))
            &&& left.contains_key(place) == files.contains_key(place)
            &&& left.contains_key(place) ==> left[place] == files[place]
        }),
{
    reveal_strlit("/");
    reveal_strlit("/data.js");
    let dir = store.item_place(collection, id);
    let gone = store.data_place(collection, id);
    assert(gone.subrange(0, dir.len() as int + 1) =~= dir + "/"@);
    let place = store.data_place(collection, other);
    let a = text::decimal(id as nat);
    let b = text::decimal(other as nat);
    let at = (store.collection_place(collection) + "/"@).len() as int;
    text::decimal_value(id as nat);
    text::decimal_value(other as nat);
    if (dir + "/"@).is_prefix_of(place) {
        let head = dir + "/"@;
        assert(head =~= place.subrange(0, head.len() as int));
        assert forall|i: int| 0 <= i <= a.len() implies #[trigger] head[at + i] == place[at + i] by {
        }
        assert(head[at + a.len()] == '/');
        assert(place[at + b.len()] == '/');
        if a.len() < b.len() {
            assert(place[at + a.len()] == b[a.len() as int]);
            assert(text::is_digit(b[a.len() as int]));
        } else if b.len() < a.len() {
            assert(head[at + b.len()] == a[b.len() as int]);
            assert(text::is_digit(a[b.len() as int]));
        } else {
            assert forall|i: int| 0 <= i < a.len() implies a[i] == b[i] by {
                assert(head[at + i] == a[i]);
                assert(place[at + i] == b[i]);
            }
            assert(a =~= b);
        }
    }
}

/// No page of a collection lists an id that was taken out of it.
pub proof fn deleted_is_not_listed(
    was: Set<u64>,
    id: u64,
    ids: Seq<u64>,
    id_min: u64,
    id_max: u64,
    skip: u64,
    limit: u64,
)
    requires
        catalog::ascending_ids(ids),
        ids.to_set() == was.remove(id),
    ensures
        !paging::page(paging::ranged(ids, id_min, id_max), skip, limit).contains(id),
{
    let all = paging::ranged(ids, id_min, id_max);
    let page = paging::page(all, skip, limit);
    if page.contains(id) {
        let i = choose|i: int| 0 <= i < page.len() && page[i] == id;
        let start = paging::page_start(all.len(), skip);
        assert(page[i] == all[start + i]);
        paging::ranged_within(ids, id_min, id_max, start + i);
        assert(ids.to_set().contains(id));
    }
}

/// A collection whose counter can be read is found with it and with the items that its
/// directories are named by; one whose counter cannot be read is found empty.
pub proof fn what_opening_finds(content: Seq<char>, names: Seq<Seq<char>>, n: u64, id: u64)
    ensures
        text::number(text::trimmed(content)) == Some(n) ==> shelf_found(Some(content), names).high
            == n && (shelf_found(Some(content), names).ids.contains(id) <==> exists|i: int|
            0 <= i < names.len() && text::number(#[trigger] names[i]) == Some(id)),
        text::number(text::trimmed(content)) is None ==> shelf_found(Some(content), names).high == 0
            && !shelf_found(Some(content), names).ids.contains(id),
        shelf_found(None, names).high == 0 && !shelf_found(None, names).ids.contains(id),
{
}

/// An item is a file of its own in a directory of its own, in the directory of its
/// collection.
pub proof fn where_items_are(store: StoreLocal, collection: Seq<char>, id: u64)
    ensures
        store.collection_place(collection) == store.path@ + "/collection/"@ + collection,
        store.item_place(collection, id) == store.path@ + "/collection/"@ + collection + "/"@
            + text::decimal(id as nat),
        store.data_place(collection, id) == store.path@ + "/collection/"@ + collection + "/"@
            + text::decimal(id as nat) + "/data.js"@,
{
}

} // verus!
