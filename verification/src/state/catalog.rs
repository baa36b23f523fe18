//! What a store knows of its collections: the ids there are, and the highest
//! number that was handed out.
use crate::collections::{IdMap, StrMap};
use crate::text::owned;
use vstd::prelude::*;

verus! {

/// What is known of one collection.
pub struct Shelf {
    pub ids: IdMap<bool>,
    pub high: u64,
}

/// What is known of one collection.
#[verifier::ext_equal]
pub struct ShelfView {
    pub ids: Set<u64>,
    pub high: u64,
}

impl View for Shelf {
    type V = ShelfView;

    open spec fn view(&self) -> ShelfView {
        ShelfView { ids: self.ids@.dom(), high: self.high }
    }
}

impl ShelfView {
    /// A collection without items.
    pub open spec fn bare() -> ShelfView {
        ShelfView { ids: Set::empty(), high: 0 }
    }

    /// The next number, or the largest there is.
    pub open spec fn next(self) -> u64 {
        if self.high == u64::MAX {
            u64::MAX
        } else {
            (self.high + 1) as u64
        }
    }

    /// The collection after its next number was handed out.
    pub open spec fn allocated(self) -> ShelfView {
        ShelfView { high: self.next(), ..self }
    }

    /// The collection after an item was written.
    pub open spec fn with_id(self, id: u64) -> ShelfView {
        ShelfView {
            ids: self.ids.insert(id),
            high: if id > self.high {
                id
            } else {
                self.high
            },
        }
    }

    /// Whether no id is above the highest number handed out.
    pub open spec fn sound(self) -> bool {
        forall|id: u64| #[trigger] self.ids.contains(id) ==> id <= self.high
    }
}

/// The collections of a store.
pub struct Catalog {
    shelves: StrMap<Shelf>,
}

impl View for Catalog {
    type V = Map<Seq<char>, ShelfView>;

    closed spec fn view(&self) -> Map<Seq<char>, ShelfView> {
        self.shelves@
    }
}

impl Catalog {
    /// No collections.
    pub fn new() -> (r: Catalog)
        ensures
            r@ == Map::<Seq<char>, ShelfView>::empty(),
    {
        Catalog { shelves: StrMap::new() }
    }

    /// Registers a collection.
    pub fn put(&mut self, collection: &str, shelf: Shelf)
        ensures
            final(self)@ == old(self)@.insert(collection@, shelf@),
    {
        self.shelves.insert(owned(collection), shelf);
    }

    /// Whether a collection is registered.
    pub fn has_collection(&self, collection: &str) -> (r: bool)
        ensures
            r == self@.contains_key(collection@),
    {
        self.shelves.contains_key(collection)
    }

    /// The names of the collections, in order.
    pub fn names(&self) -> (r: Vec<String>)
        ensures
            crate::text::views(r@).to_set() == self@.dom(),
            crate::text::views(r@).no_duplicates(),
            forall|i: int, j: int|
                #![trigger r@[i], r@[j]]
                0 <= i < j < r@.len() ==> crate::text::precedes(r@[i]@, r@[j]@),
    {
        self.shelves.sorted_keys()
    }

    /// The ids of a collection in ascending order; none of one that is not
    /// registered.
    pub fn item_ids(&self, collection: &str) -> (r: Vec<u64>)
        ensures
            ascending_ids(r@),
            r@.to_set() == (if self@.contains_key(collection@) {
                self@[collection@].ids
            } else {
                Set::<u64>::empty()
            }),
    {
        match self.shelves.get(collection) {
            Some(shelf) => ids_of(&shelf.ids),
            None => {
                let none: Vec<u64> = Vec::new();
                proof {
                    assert(none@.to_set() =~= Set::<u64>::empty());
                }
                none
            },
        }
    }

    /// Hands out the next number of a collection, where it is registered.
    pub fn allocate(&mut self, collection: &str) -> (r: Option<u64>)
        ensures
            if old(self)@.contains_key(collection@) {
                r == Some(old(self)@[collection@].next()) && final(self)@ == old(self)@.insert(
                    collection@,
                    old(self)@[collection@].allocated(),
                )
            } else {
                r is None && final(self)@ == old(self)@
            },
    {
        match self.shelves.remove(collection) {
            Some(shelf) => {
                let next: u64 = if shelf.high == u64::MAX {
                    u64::MAX
                } else {
                    shelf.high + 1
                };
                let ghost was = old(self)@[collection@];
                let after = Shelf { ids: shelf.ids, high: next };
                self.shelves.insert(owned(collection), after);
                proof {
                    assert(after@ =~= was.allocated());
                    assert(self@ =~= old(self)@.insert(collection@, was.allocated()));
                }
                Some(next)
            },
            None => {
                proof {
                    assert(self@ =~= old(self)@);
                }
                None
            },
        }
    }

    /// Notes that an item was written, where the collection is registered.
    /// Returns whether the item's id is now the highest number handed out.
    pub fn note(&mut self, collection: &str, id: u64) -> (r: bool)
        ensures
            if old(self)@.contains_key(collection@) {
                r == (id >= old(self)@[collection@].high) && final(self)@ == old(self)@.insert(
                    collection@,
                    old(self)@[collection@].with_id(id),
                )
            } else {
                !r && final(self)@ == old(self)@
            },
    {
        match self.shelves.remove(collection) {
            Some(shelf) => {
                let ghost was = old(self)@[collection@];
                let raised = id >= shelf.high;
                let high: u64 = if raised {
                    id
                } else {
                    shelf.high
                };
                let mut ids = shelf.ids;
                ids.insert(id, true);
                let after = Shelf { ids, high };
                self.shelves.insert(owned(collection), after);
                proof {
                    assert(after@ =~= was.with_id(id));
                    assert(self@ =~= old(self)@.insert(collection@, was.with_id(id)));
                }
                raised
            },
            None => {
                proof {
                    assert(self@ =~= old(self)@);
                }
                false
            },
        }
    }

    /// Notes that numbers up to `id` were handed out, where the collection is
    /// registered.
    pub fn raise(&mut self, collection: &str, id: u64)
        ensures
            final(self)@ == if old(self)@.contains_key(collection@) && id
                > old(self)@[collection@].high {
                old(self)@.insert(
                    collection@,
                    (ShelfView { high: id, ..old(self)@[collection@] }),
                )
            } else {
                old(self)@
            },
    {
        match self.shelves.remove(collection) {
            Some(shelf) => {
                let ghost was = old(self)@[collection@];
                let high: u64 = if id > shelf.high {
                    id
                } else {
                    shelf.high
                };
                let after = Shelf { ids: shelf.ids, high };
                self.shelves.insert(owned(collection), after);
                proof {
                    assert(after@ =~= ShelfView { high, ..was });
                    if id > was.high {
                        assert(self@ =~= old(self)@.insert(collection@, after@));
                    } else {
                        assert(after@ =~= was);
                        assert(self@ =~= old(self)@);
                    }
                }
            },
            None => {
                proof {
                    assert(self@ =~= old(self)@);
                }
            },
        }
    }

    /// Notes that an item is gone. Returns whether it was there.
    pub fn forget(&mut self, collection: &str, id: u64) -> (r: bool)
        ensures
            r == (old(self)@.contains_key(collection@) && old(self)@[collection@].ids.contains(id)),
            final(self)@ == if r {
                old(self)@.insert(
                    collection@,
                    (ShelfView {
                        ids: old(self)@[collection@].ids.remove(id),
                        ..old(self)@[collection@]
                    }),
                )
            } else {
                old(self)@
            },
    {
        match self.shelves.remove(collection) {
            Some(shelf) => {
                let ghost was = old(self)@[collection@];
                let high: u64 = shelf.high;
                let mut ids = shelf.ids;
                let there = ids.remove(id).is_some();
                let after = Shelf { ids, high };
                self.shelves.insert(owned(collection), after);
                proof {
                    assert(after@ =~= ShelfView { ids: was.ids.remove(id), ..was });
                    if there {
                        assert(self@ =~= old(self)@.insert(collection@, after@));
                    } else {
                        assert(after@ =~= was);
                        assert(self@ =~= old(self)@);
                    }
                }
                there
            },
            None => {
                proof {
                    assert(self@ =~= old(self)@);
                }
                false
            },
        }
    }
}

/// Whether ids come in ascending order, each once.
pub open spec fn ascending_ids(ids: Seq<u64>) -> bool {
    forall|i: int, j: int| #![trigger ids[i], ids[j]] 0 <= i < j < ids.len() ==> ids[i] < ids[j]
}

/// The ids of a map, in ascending order.
pub fn ids_of<V: View>(m: &IdMap<V>) -> (r: Vec<u64>)
    ensures
        ascending_ids(r@),
        r@.to_set() == m@.dom(),
        r@.len() == m.pairs().len(),
        forall|i: int| 0 <= i < r@.len() ==> (#[trigger] r@[i]) == m.pairs()[i].0,
{
    let n: usize = m.len();
    let ghost all = m.pairs();
    let mut out: Vec<u64> = Vec::new();
    let mut i: usize = 0;
    while i < n
        invariant
            i <= n,
            n == all.len(),
            all == m.pairs(),
            out@.len() == i,
            forall|j: int| 0 <= j < i ==> (#[trigger] out@[j]) == all[j].0,
        decreases n - i,
    {
        out.push(m.key(i));
        i = i + 1;
    }
    proof {
        assert forall|a: int, b: int| #![trigger out@[a], out@[b]] 0 <= a < b < out@.len() implies out@[a]
            < out@[b] by {
            assert(all[a].0 < all[b].0);
        }
        assert forall|k: u64| out@.to_set().contains(k) <==> m@.dom().contains(k) by {
            if out@.contains(k) {
                let j = choose|j: int| 0 <= j < out@.len() && out@[j] == k;
                crate::collections::map_of_has(all, j);
            }
            if m@.contains_key(k) {
                let j = crate::collections::map_of_from(all, k);
                assert(out@[j] == k);
            }
        }
        assert(out@.to_set() =~= m@.dom());
    }
    out
}

/// A number that is handed out is above every id there is, until the numbers
/// run out.
pub proof fn new_numbers_are_fresh(s: ShelfView)
    requires
        s.sound(),
        s.high < u64::MAX,
    ensures
        s.next() > s.high,
        !s.ids.contains(s.next()),
        s.allocated().sound(),
{
    assert forall|id: u64| #[trigger] s.allocated().ids.contains(id) implies id
        <= s.allocated().high by {
        assert(s.ids.contains(id));
    }
}

/// Two numbers that are handed out after each other differ, until the numbers
/// run out, whatever is written between.
pub proof fn consecutive_numbers_differ(s: ShelfView, id: u64)
    requires
        s.high < u64::MAX,
        s.allocated().with_id(id).high < u64::MAX,
    ensures
        s.allocated().next() > s.next(),
        s.allocated().with_id(id).next() > s.next(),
        s.allocated().with_id(id).next() > id,
{
}

/// Writing keeps every id within the numbers handed out, and deleting does.
pub proof fn writing_keeps_sound(s: ShelfView, id: u64)
    requires
        s.sound(),
    ensures
        s.with_id(id).sound(),
        (ShelfView { ids: s.ids.remove(id), ..s }).sound(),
{
    assert forall|x: u64| #[trigger] s.with_id(id).ids.contains(x) implies x <= s.with_id(
        id,
    ).high by {
        if x != id {
            assert(s.ids.contains(x));
        }
    }
    let less = ShelfView { ids: s.ids.remove(id), ..s };
    assert forall|x: u64| #[trigger] less.ids.contains(x) implies x <= less.high by {
        assert(s.ids.contains(x));
    }
}

/// The number after the highest is handed out, and counts as handed out from then on,
/// whatever is deleted.
pub proof fn numbers_go_up(s: ShelfView, id: u64)
    ensures
        s.high < u64::MAX ==> s.next() == s.high + 1,
        s.high == u64::MAX ==> s.next() == u64::MAX,
        s.allocated().high == s.next(),
        s.allocated().ids == s.ids,
        ShelfView::bare().next() == 1,
        s.with_id(id).ids == s.ids.insert(id),
        s.with_id(id).high >= id,
        s.with_id(id).high >= s.high,
        s.with_id(id).high == id || s.with_id(id).high == s.high,
{
}

} // verus!
