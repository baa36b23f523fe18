//! What every store offers.
use crate::item::{Item, ItemView};
use vstd::prelude::*;

verus! {

/// What a lookup of an account could establish.
pub enum UserLookup {
    /// The store answered, and this is the record.
    Found(Item),
    /// The store answered, and there is no such account.
    Absent,
    /// The store could not be asked, so nothing was established either way.
    Unavailable,
}

impl UserLookup {
    /// The record, if there is one. For callers that cannot act on the
    /// difference between an absent record and a store that did not answer.
    pub fn into_option(self) -> (r: Option<Item>)
        ensures
            r == match self {
                UserLookup::Found(itm) => Some(itm),
                _ => None,
            },
    {
        match self {
            UserLookup::Found(itm) => Some(itm),
            _ => None,
        }
    }

    /// What a store that cannot be unreachable established.
    pub fn answered(found: Option<Item>) -> (r: UserLookup)
        ensures
            r == match found {
                Some(itm) => UserLookup::Found(itm),
                None => UserLookup::Absent,
            },
    {
        match found {
            Some(itm) => UserLookup::Found(itm),
            None => UserLookup::Absent,
        }
    }
}

/// What became of reading a configuration file.
pub enum ConfigRead {
    Item(Item),
    /// There is no such file.
    Missing,
    /// There is one, and it does not hold a record.
    Unreadable,
}

/// A configuration record, or an empty one where there is none to read. The
/// second result says whether the operator should be told.
pub fn read_config_or_empty(read: ConfigRead) -> (r: (Item, bool))
    ensures
        match read {
            ConfigRead::Item(itm) => r.0@ == itm@ && !r.1,
            ConfigRead::Missing => r.0@ == ItemView::empty() && !r.1,
            ConfigRead::Unreadable => r.0@ == ItemView::empty() && r.1,
        },
{
    match read {
        ConfigRead::Item(itm) => (itm, false),
        ConfigRead::Missing => (Item::new(), false),
        ConfigRead::Unreadable => (Item::new(), true),
    }
}

/// A flag that callers set for the write alone. It is never stored.
pub const WRITE_ONLY_FLAG: &'static str = "__security_preserve";

/// A record as it may be stored: without the flag that is for the write alone.
pub fn storable(itm: &Item) -> (r: Item)
    ensures
        r@ == itm@.without_bool(WRITE_ONLY_FLAG@),
{
    let mut out = itm.clone();
    out.bools.remove(WRITE_ONLY_FLAG);
    out
}

/// The record that a write leaves behind, given the one that was there.
pub open spec fn written(itm: ItemView, there: Option<ItemView>, merge: bool) -> ItemView {
    match there {
        Some(was) => if merge {
            was.overlaid(itm)
        } else {
            itm
        },
        None => itm,
    }
}

/// The record that a write leaves behind, given the one that was there.
pub fn merged(itm: &Item, there: Option<&Item>, merge: bool) -> (r: Item)
    ensures
        r@ == written(
            itm@,
            match there {
                Some(was) => Some(was@),
                None => None,
            },
            merge,
        ),
{
    match there {
        Some(was) => if merge {
            let mut base = was.clone();
            base.merge(itm);
            base
        } else {
            itm.clone()
        },
        None => itm.clone(),
    }
}

/// What is written holds every field of the record that was sent, and with
/// `merge` every other field that was there.
pub proof fn writing_keeps_what_was_sent(
    itm: ItemView,
    there: ItemView,
    k: Seq<char>,
)
    ensures
        itm.strs.contains_key(k) ==> written(itm, Some(there), true).strs[k] == itm.strs[k],
        !itm.strs.contains_key(k) && there.strs.contains_key(k) ==> written(
            itm,
            Some(there),
            true,
        ).strs[k] == there.strs[k],
        written(itm, Some(there), false) == itm,
        written(itm, None, true) == itm,
{
}

/// Merging lays what was sent over what was there, field by field of every sort, and
/// keeps the number of the record; without it what was sent is all there is.
pub proof fn what_a_write_leaves(itm: ItemView, was: ItemView, k: Seq<char>)
    ensures
        ({
            let now = written(itm, Some(was), true);
            &&& now.id == was.id
            &&& now.strs.get(k) == (if itm.strs.contains_key(k) {
                itm.strs.get(k)
            } else {
                was.strs.get(k)
            })
            &&& now.bools.get(k) == (if itm.bools.contains_key(k) {
                itm.bools.get(k)
            } else {
                was.bools.get(k)
            })
            &&& now.u64s.get(k) == (if itm.u64s.contains_key(k) {
                itm.u64s.get(k)
            } else {
                was.u64s.get(k)
            })
            &&& now.ids.get(k) == (if itm.ids.contains_key(k) {
                itm.ids.get(k)
            } else {
                was.ids.get(k)
            })
            &&& now.strids.get(k) == (if itm.strids.contains_key(k) {
                itm.strids.get(k)
            } else {
                was.strids.get(k)
            })
            &&& now.strstrs.get(k) == (if itm.strstrs.contains_key(k) {
                itm.strstrs.get(k)
            } else {
                was.strstrs.get(k)
            })
        }),
        written(itm, Some(was), false) == itm,
        written(itm, None, true) == itm,
        written(itm, None, false) == itm,
{
}

} // verus!
