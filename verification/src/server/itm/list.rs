//! Listing the records of a collection.
use crate::collections;
use crate::collections::{Duplicate, IdMap};
use crate::item::{Item, ItemView, ListResult};
use crate::json;
use crate::server::api_token;
use crate::server::api_token::hidden_from_item_api;
use crate::server::list_filter;
use crate::server::list_filter::{field_is_allowed, redact_credentials, validate_client_filter};
use crate::state::connecting;
use crate::state::paging;
use crate::state::paging::{window, NOT_GIVEN};
use crate::state::route_cache;
use crate::text;
use crate::text::{cat5, owned, same};
use vstd::prelude::*;

verus! {

/// What a listing asks for.
pub struct ListQuery {
    pub collection: String,
    /// What the plugins are told the listing is for.
    pub context: String,
    pub id: u64,
    pub id_list: Vec<u64>,
    pub id_min: u64,
    pub id_max: u64,
    pub skip: u64,
    pub limit: u64,
    pub sort_key: String,
    pub filter: String,
}

/// What a listing comes to.
#[derive(Clone, Copy, Debug, PartialEq, Eq, Structural)]
pub enum Listing {
    /// It is refused.
    Refused,
    /// One record is read.
    One,
    /// A range is queried.
    Range,
    /// The records with given ids are read.
    Listed,
    /// Nothing was selected.
    Nothing,
}

/// Whether the filter and the sort key of a listing may reach the database.
pub open spec fn acceptable(lq: ListQuery) -> bool {
    &&& list_filter::filter_verdict(lq.filter@, json::parsed(lq.filter@)) is Ok
    &&& lq.sort_key@.len() == 0 || list_filter::allowed_field(lq.sort_key@)
}

/// What a listing selects: a single record, a range, or given ids, whichever is
/// given first in this order.
pub open spec fn selected(lq: ListQuery) -> Listing {
    if lq.id != NOT_GIVEN {
        Listing::One
    } else if lq.id_min != NOT_GIVEN || lq.id_max != NOT_GIVEN || lq.sort_key@.len() > 0
        || lq.filter@.len() > 0 {
        Listing::Range
    } else if lq.id_list@.len() > 0 {
        Listing::Listed
    } else {
        Listing::Nothing
    }
}

/// What a listing comes to, given whether its filter was accepted.
pub fn choose_listing(lq: &ListQuery, known: bool, filter_accepted: bool) -> (r: Listing)
    ensures
        r == (if known && lq.collection@ != api_token::COLLECTION@ && filter_accepted && (lq.sort_key@.len() == 0
            || list_filter::allowed_field(lq.sort_key@)) {
            selected(*lq)
        } else {
            Listing::Refused
        }),
{
    if !known || hidden_from_item_api(lq.collection.as_str()) || !filter_accepted {
        return Listing::Refused;
    }
    if !lq.sort_key.as_str().is_empty() && !field_is_allowed(lq.sort_key.as_str()) {
        return Listing::Refused;
    }
    if lq.id != NOT_GIVEN {
        Listing::One
    } else if lq.id_min != NOT_GIVEN || lq.id_max != NOT_GIVEN || !lq.sort_key.as_str().is_empty()
        || !lq.filter.as_str().is_empty() {
        Listing::Range
    } else if lq.id_list.len() > 0 {
        Listing::Listed
    } else {
        Listing::Nothing
    }
}

/// What a listing comes to. One of a collection that is not there, or of the
/// tokens, or with a filter or a sort key that a client may not use, is refused.
pub fn itm_list(lq: &ListQuery, known: bool) -> (r: Listing)
    ensures
        r == (if known && lq.collection@ != api_token::COLLECTION@ && acceptable(*lq) {
            selected(*lq)
        } else {
            Listing::Refused
        }),
{
    let accepted = validate_client_filter(lq.filter.as_str()).is_ok();
    choose_listing(lq, known, accepted)
}

/// What the plugins are told the listing is for. A single record is read in full
/// unless the caller says otherwise.
pub fn context_of(lq: &ListQuery) -> (r: String)
    ensures
        r@ == (if lq.id != NOT_GIVEN && lq.context@.len() == 0 {
            "full"@
        } else {
            lq.context@
        }),
{
    if lq.id != NOT_GIVEN && lq.context.as_str().is_empty() {
        owned("full")
    } else {
        lq.context.clone()
    }
}

// ---------------------------------------------------------------------------
// One record
// ---------------------------------------------------------------------------

/// The listing of a single record; nothing where it is not there, for which the
/// request is refused.
pub fn list_one(id: u64, found: Option<Item>) -> (r: Option<ListResult>)
    ensures
        match found {
            Some(itm) => r matches Some(lr) && lr.map@ == Map::<u64, ItemView>::empty().insert(
                id,
                itm@,
            ) && lr.total_count == 1,
            None => r is None,
        },
{
    match found {
        Some(itm) => {
            let mut map: IdMap<Item> = IdMap::new();
            map.insert(id, itm);
            Some(ListResult { map, total_count: 1 })
        },
        None => None,
    }
}

/// The listing of nothing.
pub fn list_nothing() -> (r: ListResult)
    ensures
        r.map@ == Map::<u64, ItemView>::empty(),
        r.total_count == 0,
{
    ListResult { map: IdMap::new(), total_count: 0 }
}

// ---------------------------------------------------------------------------
// Filters
// ---------------------------------------------------------------------------

/// Two filters, both of which have to hold.
pub open spec fn both(a: Seq<char>, b: Seq<char>) -> Seq<char> {
    "{ \"$and\": ["@ + a + ", "@ + b + "]}"@
}

/// One filter that says what several say together.
pub open spec fn all_of(filters: Seq<Seq<char>>) -> Seq<char>
    decreases filters.len(),
{
    if filters.len() == 0 {
        Seq::empty()
    } else {
        let before = all_of(filters.drop_last());
        if before.len() == 0 {
            filters.last()
        } else {
            both(before, filters.last())
        }
    }
}

/// The filters of a query: the client's, where there is one, then those that the
/// plugins add.
pub open spec fn filters_of(client: Seq<char>, added: Seq<Seq<char>>) -> Seq<Seq<char>> {
    if client.len() > 0 {
        seq![client] + added
    } else {
        added
    }
}

/// The filter of a query.
pub fn final_filter(client: &str, added: &Vec<String>) -> (r: String)
    ensures
        r@ == all_of(filters_of(client@, text::views(added@))),
{
    let ghost all = filters_of(client@, text::views(added@));
    let ghost lead: int = if client@.len() > 0 {
        1
    } else {
        0
    };
    let mut out = owned(client);
    let mut i: usize = 0;
    proof {
        reveal_with_fuel(all_of, 2);
        if client@.len() > 0 {
            assert(all.take(1).drop_last() =~= Seq::<Seq<char>>::empty());
            assert(all.take(1).last() == client@);
        } else {
            assert(client@ =~= Seq::<char>::empty());
            assert(all.take(0) =~= Seq::<Seq<char>>::empty());
        }
    }
    while i < added.len()
        invariant
            i <= added.len(),
            0 <= lead,
            all.len() == lead + added.len(),
            forall|j: int| 0 <= j < added@.len() ==> all[lead + j] == (#[trigger] added@[j])@,
            out@ == all_of(all.take(lead + i)),
        decreases added.len() - i,
    {
        proof {
            let next = all.take(lead + i + 1);
            assert(next.drop_last() =~= all.take(lead + i));
            assert(next.last() == all[lead + i]);
            assert(all[lead + i] == added@[i as int]@);
        }
        if out.as_str().is_empty() {
            out = added[i].clone();
        } else {
            out = cat5("{ \"$and\": [", out.as_str(), ", ", added[i].as_str(), "]}");
        }
        i = i + 1;
    }
    proof {
        assert(all.take(all.len() as int) =~= all);
    }
    out
}

// ---------------------------------------------------------------------------
// Given ids
// ---------------------------------------------------------------------------

/// What was found.
pub open spec fn found_views(found: Seq<(u64, Item)>) -> Seq<(u64, ItemView)> {
    found.map_values(|p: (u64, Item)| (p.0, p.1@))
}

/// Found records with one more put behind those with its id or a smaller one.
pub open spec fn placed(s: Seq<(u64, ItemView)>, x: (u64, ItemView)) -> Seq<(u64, ItemView)>
    decreases s.len(),
{
    if s.len() == 0 || s.last().0 <= x.0 {
        s.push(x)
    } else {
        placed(s.drop_last(), x).push(s.last())
    }
}

/// Found records by id; those with one id in the order in which they were found.
pub open spec fn by_id(s: Seq<(u64, ItemView)>) -> Seq<(u64, ItemView)>
    decreases s.len(),
{
    if s.len() == 0 {
        s
    } else {
        placed(by_id(s.drop_last()), s.last())
    }
}

/// Records by id. Of an id that comes again, the last counts.
pub open spec fn keyed(s: Seq<(u64, ItemView)>) -> Map<u64, ItemView>
    decreases s.len(),
{
    if s.len() == 0 {
        Map::empty()
    } else {
        keyed(s.drop_last()).insert(s.last().0, s.last().1)
    }
}

proof fn placed_at(s: Seq<(u64, ItemView)>, x: (u64, ItemView), p: int)
    requires
        0 <= p <= s.len(),
        p == 0 || s[p - 1].0 <= x.0,
        forall|i: int| p <= i < s.len() ==> (#[trigger] s[i]).0 > x.0,
    ensures
        placed(s, x) == s.insert(p, x),
    decreases s.len(),
{
    if p == s.len() {
        assert(s.insert(p, x) =~= s.push(x));
    } else {
        assert(s[s.len() - 1].0 > x.0);
        let rest = s.drop_last();
        assert forall|i: int| p <= i < rest.len() implies (#[trigger] rest[i]).0 > x.0 by {
            assert(s[i].0 > x.0);
        }
        placed_at(rest, x, p);
        assert(rest.insert(p, x).push(s.last()) =~= s.insert(p, x));
    }
}

proof fn placed_keeps(s: Seq<(u64, ItemView)>, x: (u64, ItemView))
    requires
        forall|i: int, j: int| 0 <= i <= j < s.len() ==> (#[trigger] s[i]).0 <= (#[trigger] s[j]).0,
    ensures
        placed(s, x).len() == s.len() + 1,
        placed(s, x).to_multiset() == s.to_multiset().insert(x),
        forall|i: int, j: int|
            0 <= i <= j < placed(s, x).len() ==> (#[trigger] placed(s, x)[i]).0 <= (
            #[trigger] placed(s, x)[j]).0,
        placed(s, x).last().0 == x.0 || (s.len() > 0 && placed(s, x).last() == s.last()),
    decreases s.len(),
{
    broadcast use vstd::seq_lib::group_to_multiset_ensures;

    if s.len() == 0 || s.last().0 <= x.0 {
        assert forall|i: int, j: int| 0 <= i <= j < s.push(x).len() implies (
        #[trigger] s.push(x)[i]).0 <= (#[trigger] s.push(x)[j]).0 by {
            if j == s.len() && i < j {
                assert(s[i].0 <= s[s.len() - 1].0);
            }
        }
    } else {
        let rest = s.drop_last();
        assert forall|i: int, j: int| 0 <= i <= j < rest.len() implies (#[trigger] rest[i]).0 <= (
        #[trigger] rest[j]).0 by {
            assert(s[i].0 <= s[j].0);
        }
        placed_keeps(rest, x);
        let head = placed(rest, x);
        let out = head.push(s.last());
        assert(s =~= rest.push(s.last()));
        assert(out.to_multiset() =~= s.to_multiset().insert(x));
        assert forall|i: int, j: int| 0 <= i <= j < out.len() implies (#[trigger] out[i]).0 <= (
        #[trigger] out[j]).0 by {
            if j == head.len() && i < j {
                assert(head[i].0 <= head[head.len() - 1].0);
                if rest.len() > 0 {
                    assert(s[rest.len() - 1].0 <= s[s.len() - 1].0);
                }
            }
        }
    }
}

/// What was found is listed in ascending order of the ids, and nothing is lost or
/// added by that: a page is the same whenever it is asked for.
pub proof fn listed_in_order(s: Seq<(u64, ItemView)>)
    ensures
        by_id(s).len() == s.len(),
        by_id(s).to_multiset() == s.to_multiset(),
        forall|i: int, j: int|
            0 <= i <= j < s.len() ==> (#[trigger] by_id(s)[i]).0 <= (#[trigger] by_id(s)[j]).0,
    decreases s.len(),
{
    broadcast use vstd::seq_lib::group_to_multiset_ensures;

    if s.len() > 0 {
        let rest = s.drop_last();
        listed_in_order(rest);
        placed_keeps(by_id(rest), s.last());
        assert(s =~= rest.push(s.last()));
    }
}

fn place_found(sorted: &mut Vec<(u64, Item)>, x: (u64, Item))
    ensures
        found_views(final(sorted)@) == placed(found_views(old(sorted)@), (x.0, x.1@)),
{
    let ghost was = found_views(sorted@);
    let mut p: usize = sorted.len();
    while p > 0 && sorted[p - 1].0 > x.0
        invariant
            p <= sorted.len(),
            sorted@ == old(sorted)@,
            forall|i: int| p <= i < sorted@.len() ==> (#[trigger] sorted@[i]).0 > x.0,
        decreases p,
    {
        p = p - 1;
    }
    proof {
        assert forall|i: int| p <= i < was.len() implies (#[trigger] was[i]).0 > x.0 by {
            assert(sorted@[i].0 > x.0);
        }
        placed_at(was, (x.0, x.1@), p as int);
    }
    sorted.insert(p, x);
    proof {
        assert(found_views(sorted@) =~= was.insert(p as int, (x.0, x.1@)));
    }
}

/// The listing of given ids: a page of those that were found, by id, and how many
/// were found.
pub fn list_found(found: Vec<(u64, Item)>, skip: u64, limit: u64) -> (r: ListResult)
    ensures
        r.map@ == keyed(paging::page(by_id(found_views(found@)), skip, limit)),
        r.total_count == found@.len(),
{
    let ghost all = found_views(found@);
    let total: u64 = found.len() as u64;
    let mut rest = found;
    let mut sorted: Vec<(u64, Item)> = Vec::new();
    let ghost mut i: int = 0;
    proof {
        assert(all.take(0) =~= Seq::<(u64, ItemView)>::empty());
        assert(found_views(sorted@) =~= by_id(all.take(0)));
        assert(found_views(rest@) =~= all.skip(0));
        listed_in_order(all);
    }
    while rest.len() > 0
        invariant
            0 <= i <= all.len(),
            found_views(rest@) == all.skip(i),
            found_views(sorted@) == by_id(all.take(i)),
        decreases rest.len(),
    {
        let ghost had = rest@;
        let x = rest.remove(0);
        proof {
            assert(found_views(had).len() == had.len());
            assert(found_views(had).len() == all.skip(i).len());
            assert(found_views(had)[0] == (x.0, x.1@));
            assert(all.skip(i)[0] == all[i]);
            assert(found_views(rest@) =~= all.skip(i + 1)) by {
                assert forall|j: int| 0 <= j < rest@.len() implies #[trigger] found_views(
                    rest@,
                )[j] == all.skip(i + 1)[j] by {
                    assert(rest@[j] == had[j + 1]);
                    assert(found_views(had)[j + 1] == all.skip(i)[j + 1]);
                }
            }
            assert(all.take(i + 1).drop_last() =~= all.take(i));
            assert(all.take(i + 1).last() == all[i]);
        }
        place_found(&mut sorted, x);
        proof {
            i = i + 1;
        }
    }
    proof {
        assert(found_views(rest@).len() == 0);
        assert(all.take(i) =~= all);
        assert(found_views(sorted@).len() == sorted@.len());
    }
    let ghost order = by_id(all);
    let (start, end) = window(sorted.len(), skip, limit);
    let mut map: IdMap<Item> = IdMap::new();
    let mut k: usize = start;
    proof {
        assert(order.subrange(start as int, start as int) =~= Seq::<(u64, ItemView)>::empty());
    }
    while k < end
        invariant
            start <= k <= end <= sorted.len(),
            found_views(sorted@) == order,
            map@ == keyed(order.subrange(start as int, k as int)),
        decreases end - k,
    {
        proof {
            let next = order.subrange(start as int, k + 1);
            assert(next.drop_last() =~= order.subrange(start as int, k as int));
            assert(next.last() == found_views(sorted@)[k as int]);
        }
        map.insert(sorted[k].0, sorted[k].1.duplicate());
        k = k + 1;
    }
    ListResult { map, total_count: total }
}

// ---------------------------------------------------------------------------
// After paging
// ---------------------------------------------------------------------------

/// The handlers that see a page, in the order of the names they go by.
pub fn filter_hooks(internals: &Item) -> (r: Vec<String>)
    ensures
        exists|order: Seq<Seq<char>>| #[trigger]
            route_cache::reading_order(
                route_cache::table(internals@, "itm_list_filter_hook"@),
                order,
            ) && text::in_order(order) && text::views(r@) == connecting::values_read(
                route_cache::table(internals@, "itm_list_filter_hook"@),
                order,
            ),
{
    let entries = internals.safe_strstr("itm_list_filter_hook");
    let ghost t = route_cache::table(internals@, "itm_list_filter_hook"@);
    let names = entries.sorted_keys();
    let ghost order = text::views(names@);
    let mut out: Vec<String> = Vec::new();
    let mut i: usize = 0;
    proof {
        assert(entries@ == t);
        assert(order.to_set() =~= t.dom());
        assert(route_cache::reading_order(t, order));
        assert forall|a: int, b: int|
            #![trigger order[a], order[b]]
            0 <= a < b < order.len() implies !text::precedes(order[b], order[a]) by {
            assert(text::precedes(names@[a]@, names@[b]@));
            if text::precedes(order[b], order[a]) {
                text::precedes_transitive(order[a], order[b], order[a]);
                text::precedes_irreflexive(order[a]);
            }
        }
        assert(text::in_order(order));
    }
    while i < names.len()
        invariant
            i <= names.len(),
            entries@ == t,
            order == text::views(names@),
            order.to_set() == t.dom(),
            out@.len() == i,
            forall|j: int| 0 <= j < i ==> (#[trigger] out@[j])@ == t[order[j]],
        decreases names.len() - i,
    {
        proof {
            assert(order[i as int] == names@[i as int]@);
            assert(order.to_set().contains(order[i as int]));
        }
        match entries.get(names[i].as_str()) {
            Some(h) => {
                out.push(h.clone());
            },
            None => {
                proof {
                    assert(t.dom().contains(order[i as int]));
                }
                out.push(String::new());
            },
        }
        i = i + 1;
    }
    proof {
        assert(text::views(out@) =~= connecting::values_read(t, order)) by {
            assert forall|j: int| 0 <= j < out@.len() implies #[trigger] text::views(out@)[j]
                == connecting::values_read(t, order)[j] by {
                assert(out@[j]@ == t[order[j]]);
            }
        }
    }
    out
}

/// A record as a caller may see it: one of another account comes without its
/// credentials, unless the caller is an administrator.
pub open spec fn shown(
    collection: Seq<char>,
    admin: bool,
    caller: Option<u64>,
    id: u64,
    v: ItemView,
) -> ItemView {
    if collection == "user"@ && !admin && caller != Some(id) {
        list_filter::redacted(v)
    } else {
        v
    }
}

/// A page as a caller may see it.
pub fn show_page(items: &IdMap<Item>, collection: &str, admin: bool, caller: Option<u64>) -> (r:
    IdMap<Item>)
    ensures
        r@.dom() == items@.dom(),
        forall|id: u64| #[trigger]
            items@.contains_key(id) ==> r@[id] == shown(
                collection@,
                admin,
                caller,
                id,
                items@[id],
            ),
{
    let hides = same(collection, "user") && !admin;
    let n: usize = items.len();
    let ghost all = items.pairs();
    let mut out: IdMap<Item> = IdMap::new();
    let mut i: usize = 0;
    proof {
        collections::map_of_none(all.take(0));
        assert(collections::map_of(all.take(0)).dom() =~= out@.dom());
    }
    while i < n
        invariant
            i <= n,
            n == all.len(),
            all == items.pairs(),
            collections::distinct_keys(all),
            hides == (collection@ == "user"@ && !admin),
            out@.dom() == collections::map_of(all.take(i as int)).dom(),
            forall|j: int|
                0 <= j < i ==> out@[(#[trigger] all[j]).0] == shown(
                    collection@,
                    admin,
                    caller,
                    all[j].0,
                    all[j].1,
                ),
        decreases n - i,
    {
        let id: u64 = items.key(i);
        let mut itm = items.value(i).duplicate();
        if hides {
            let own = match caller {
                Some(c) => c == id,
                None => false,
            };
            if !own {
                redact_credentials(&mut itm);
            }
        }
        proof {
            collections::map_of_grow(all, i as int);
            assert forall|j: int| 0 <= j < i implies (#[trigger] all[j]).0 != id by {}
        }
        out.insert(id, itm);
        proof {
            assert(out@.dom() =~= collections::map_of(all.take(i + 1)).dom());
        }
        i = i + 1;
    }
    proof {
        assert(all.take(n as int) =~= all);
        assert forall|id: u64| #[trigger] items@.contains_key(id) implies out@[id] == shown(
            collection@,
            admin,
            caller,
            id,
            items@[id],
        ) by {
            let j = collections::map_of_from(all, id);
            assert(all[j].0 == id);
        }
    }
    out
}

/// Nobody but an administrator is shown a credential of somebody else.
pub proof fn credentials_of_others_are_hidden(
    caller: Option<u64>,
    id: u64,
    v: ItemView,
    k: Seq<char>,
)
    requires
        caller != Some(id),
        list_filter::credential_field(k),
    ensures
        !shown("user"@, false, caller, id, v).strs.contains_key(k),
        !shown("user"@, false, caller, id, v).strstrs.contains_key(k),
        !shown("user"@, false, caller, id, v).strids.contains_key(k),
        !shown("user"@, false, caller, id, v).bools.contains_key(k),
        !shown("user"@, false, caller, id, v).u64s.contains_key(k),
        !shown("user"@, false, caller, id, v).ids.contains_key(k),
{
}

/// What a listing selects goes by what is given first: a single id, then a range, a
/// sort key or a filter, then a list of ids; a listing that gives none of them
/// selects nothing.
pub proof fn what_a_listing_selects(lq: ListQuery)
    ensures
        selected(lq) == Listing::One <==> lq.id != u64::MAX,
        selected(lq) == Listing::Range <==> lq.id == u64::MAX && (lq.id_min != u64::MAX || lq.id_max
            != u64::MAX || lq.sort_key@.len() > 0 || lq.filter@.len() > 0),
        selected(lq) == Listing::Listed <==> lq.id == u64::MAX && lq.id_min == u64::MAX && lq.id_max
            == u64::MAX && lq.sort_key@.len() == 0 && lq.filter@.len() == 0 && lq.id_list@.len()
            > 0,
        selected(lq) == Listing::Nothing <==> lq.id == u64::MAX && lq.id_min == u64::MAX
            && lq.id_max == u64::MAX && lq.sort_key@.len() == 0 && lq.filter@.len() == 0
            && lq.id_list@.len() == 0,
{
}

/// A listing is acceptable where both its filter and its sort key are; one without
/// either is.
pub proof fn what_makes_a_listing_acceptable(lq: ListQuery)
    ensures
        acceptable(lq) ==> list_filter::filter_verdict(lq.filter@, json::parsed(lq.filter@)) is Ok,
        acceptable(lq) && lq.sort_key@.len() > 0 ==> list_filter::allowed_field(lq.sort_key@),
        lq.filter@.len() == 0 && lq.sort_key@.len() == 0 ==> acceptable(lq),
        list_filter::filter_verdict(lq.filter@, json::parsed(lq.filter@)) is Ok
            && list_filter::allowed_field(lq.sort_key@) ==> acceptable(lq),
{
    if lq.filter@.len() == 0 {
        text::trimmed_fixed(lq.filter@);
    }
}

/// One filter stands as it is, two hold together, and each further one holds with
/// all before it; no filter is none. The client's comes first.
pub proof fn filters_hold_together(a: Seq<char>, b: Seq<char>, more: Seq<Seq<char>>)
    requires
        a.len() > 0,
    ensures
        all_of(Seq::empty()).len() == 0,
        all_of(seq![a]) == a,
        all_of(seq![a, b]) == "{ \"$and\": ["@ + a + ", "@ + b + "]}"@,
        all_of(more).len() > 0 ==> all_of(more.push(b)) == "{ \"$and\": ["@ + all_of(more) + ", "@
            + b + "]}"@,
        filters_of(a, more) == seq![a] + more,
        filters_of(Seq::empty(), more) == more,
{
    assert(seq![a].drop_last() =~= Seq::<Seq<char>>::empty());
    assert(seq![a, b].drop_last() =~= seq![a]);
    assert(more.push(b).drop_last() =~= more);
}

/// Of what was found, every id is listed, with the record that was found last under
/// it.
pub proof fn every_id_is_listed(s: Seq<(u64, ItemView)>, i: int, id: u64)
    ensures
        0 <= i < s.len() && (forall|j: int| i < j < s.len() ==> (#[trigger] s[j]).0 != s[i].0)
            ==> keyed(s).contains_key(s[i].0) && keyed(s)[s[i].0] == s[i].1,
        keyed(s).contains_key(id) <==> exists|j: int| 0 <= j < s.len() && (#[trigger] s[j]).0 == id,
    decreases s.len(),
{
    if s.len() > 0 {
        let head = s.drop_last();
        assert(s[s.len() - 1] == s.last());
        assert forall|j: int| 0 <= j < head.len() implies #[trigger] head[j] == s[j] by {}
        if 0 <= i < s.len() - 1 {
            every_id_is_listed(head, i, id);
            if forall|j: int| i < j < s.len() ==> (#[trigger] s[j]).0 != s[i].0 {
                assert(s[s.len() - 1].0 != s[i].0);
                assert forall|j: int| i < j < head.len() implies (#[trigger] head[j]).0
                    != head[i].0 by {
                    assert(s[j].0 != s[i].0);
                }
            }
        } else {
            every_id_is_listed(head, -1, id);
        }
        if exists|j: int| 0 <= j < s.len() && (#[trigger] s[j]).0 == id {
            let j = choose|j: int| 0 <= j < s.len() && (#[trigger] s[j]).0 == id;
            if j < head.len() {
                assert(head[j].0 == id);
            }
        }
        if keyed(head).contains_key(id) {
            let j = choose|j: int| 0 <= j < head.len() && (#[trigger] head[j]).0 == id;
            assert(s[j].0 == id);
        }
    }
}

/// Everybody sees their own account whole, an administrator sees everything whole,
/// and records that are no accounts are shown as they are.
pub proof fn what_is_shown_whole(
    collection: Seq<char>,
    admin: bool,
    caller: Option<u64>,
    id: u64,
    v: ItemView,
)
    ensures
        admin ==> shown(collection, admin, caller, id, v) == v,
        caller == Some(id) ==> shown(collection, admin, caller, id, v) == v,
        collection != "user"@ ==> shown(collection, admin, caller, id, v) == v,
        collection == "user"@ && !admin && caller != Some(id) ==> shown(
            collection,
            admin,
            caller,
            id,
            v,
        ) == list_filter::redacted(v),
{
}

} // verus!
