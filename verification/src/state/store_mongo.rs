//! A store in a document database.
//!
//! What is asked of the database, and what its answers come to, is decided
//! here; asking is left to the caller.
use crate::collections::StrMap;
use crate::item::{Item, ItemView};
use crate::json;
use crate::json::{read_value, Json, JsonView};
use crate::state::catalog::{Catalog, ShelfView};
use crate::state::paging;
use crate::state::route_cache;
use crate::state::store;
use crate::state::store::{storable, UserLookup};
use crate::text;
use crate::text::{cat5, owned, same, split_on, strip_prefix};
use vstd::prelude::*;

verus! {

/// How long an account that was looked up may be used again, in milliseconds.
pub const USER_CACHE_TTL_MS: u64 = 30_000;

/// Where the last number of each collection is kept. It holds no items.
pub const COUNTERS_COLLECTION: &'static str = "__id_counters";

/// A document of the `bson` crate.
#[verifier::external_type_specification]
#[verifier::external_body]
pub struct OutsideDocument(bson::Document);

/// What a document of the `bson` crate holds, as a tree.
pub uninterp spec fn document_tree(d: bson::Document) -> JsonView;

/// What the document holds that `bson` makes of a JSON value; nothing where it
/// makes none.
pub uninterp spec fn bson_made(t: JsonView) -> Option<JsonView>;

/// `bson::to_document` of a JSON value. The contract names what the document
/// holds, and that there is one of objects alone.
#[verifier::external_body]
fn to_document(v: &serde_json::Value) -> (r: Option<bson::Document>)
    ensures
        match r {
            Some(d) => bson_made(json::value_tree(*v)) == Some(document_tree(d)),
            None => bson_made(json::value_tree(*v)) is None,
        },
        r is Some ==> json::value_tree(*v) is Object,
{
    bson::to_document(v).ok()
}

/// What the database is given for a filter; nothing where the text is none.
pub open spec fn filter_document(filter: Seq<char>) -> Option<JsonView> {
    match json::parsed(filter) {
        Ok(t) => bson_made(t),
        Err(_) => None,
    }
}

/// Whether a text is a filter that the database can be given.
pub open spec fn is_filter(filter: Seq<char>) -> bool {
    filter_document(filter) is Some
}

/// A filter as the database takes it, where it is one.
pub fn json_to_bson(json_string: &str) -> (r: Result<bson::Document, bool>)
    ensures
        match r {
            Ok(d) => filter_document(json_string@) == Some(document_tree(d)),
            Err(e) => filter_document(json_string@) is None && !e,
        },
{
    match read_value(json_string) {
        Ok(v) => match to_document(&v) {
            Some(d) => Ok(d),
            None => Err(false),
        },
        Err(_) => Err(false),
    }
}

// ---------------------------------------------------------------------------
// Listing
// ---------------------------------------------------------------------------

/// Bounds on ids; an end that is not given is open.
#[derive(Clone, Copy, PartialEq, Eq, Structural)]
pub struct Bounds {
    pub min: Option<u64>,
    pub max: Option<u64>,
}

/// What a listing selects.
pub enum Selection {
    Everything,
    Ids(Bounds),
    Filter(bson::Document),
    /// What a filter and bounds both select.
    Both(bson::Document, Bounds),
}

/// A listing, as it is put to the database.
pub struct ListPlan {
    pub selection: Selection,
    /// The keys to sort by, each with whether the order is reversed.
    pub sort: Vec<(String, bool)>,
    pub skip: u64,
    pub limit: i64,
    /// Whether the count is all that is wanted.
    pub count_only: bool,
}

/// The key that a listing is sorted by, and whether the order is reversed.
pub open spec fn sort_of(sort_key: Seq<char>) -> (Seq<char>, bool) {
    if sort_key.len() == 0 {
        ("id"@, false)
    } else if sort_key[0] == '-' && sort_key.len() > 1 {
        (sort_key.skip(1), true)
    } else {
        (sort_key, false)
    }
}

/// The keys that a listing is sorted by. The id comes last, in the same
/// direction, so that the order of a listing is fixed.
pub open spec fn sort_keys(sort_key: Seq<char>) -> Seq<(Seq<char>, bool)> {
    let (key, reversed) = sort_of(sort_key);
    if key == "id"@ {
        seq![("id"@, reversed)]
    } else {
        seq![(key, reversed), ("id"@, reversed)]
    }
}

/// Sort keys as texts.
pub open spec fn keys_seen(keys: Seq<(String, bool)>) -> Seq<(Seq<char>, bool)> {
    Seq::new(keys.len(), |i: int| (keys[i].0@, keys[i].1))
}

/// The keys that a listing is sorted by.
pub fn plan_sort(sort_key: &str) -> (r: Vec<(String, bool)>)
    ensures
        keys_seen(r@) == sort_keys(sort_key@),
{
    let (key, reversed) = if sort_key.is_empty() {
        (owned("id"), false)
    } else {
        proof {
            reveal_strlit("-");
            let s = sort_key@;
            assert("-"@.is_prefix_of(s) <==> s[0] == '-') by {
                if s[0] == '-' {
                    assert(s.subrange(0, 1) =~= "-"@);
                }
                if "-"@.is_prefix_of(s) {
                    assert(s.subrange(0, 1)[0] == "-"@[0]);
                }
            }
        }
        match strip_prefix(sort_key, "-") {
            Some(k) => if k.as_str().is_empty() {
                (owned(sort_key), false)
            } else {
                proof {
                    assert(k@ =~= sort_key@.skip(1));
                }
                (k, true)
            },
            None => (owned(sort_key), false),
        }
    };
    let mut out: Vec<(String, bool)> = Vec::new();
    if !same(key.as_str(), "id") {
        out.push((key, reversed));
    }
    out.push((owned("id"), reversed));
    proof {
        assert(keys_seen(out@) =~= sort_keys(sort_key@));
    }
    out
}

/// The bound that a number stands for.
pub open spec fn bound(n: u64) -> Option<u64> {
    if n == paging::NOT_GIVEN {
        None
    } else {
        Some(n)
    }
}

/// Whether a filter selects anything less than everything: it can be given to
/// the database, and it has members.
pub open spec fn filters(filter: Seq<char>) -> bool {
    filter.len() > 0 && is_filter(filter) && match json::parsed(filter) {
        Ok(JsonView::Object(e)) => e.len() > 0,
        _ => false,
    }
}

/// The size of a page, as the database takes it.
pub open spec fn page_size(limit: u64) -> i64 {
    if limit > i64::MAX {
        i64::MAX
    } else {
        limit as i64
    }
}

fn base_filter(filter: &str) -> (r: Option<bson::Document>)
    ensures
        match r {
            Some(d) => filters(filter@) && filter_document(filter@) == Some(document_tree(d)),
            None => !filters(filter@),
        },
{
    if filter.is_empty() {
        return None;
    }
    let has_members = match json::parse(filter) {
        Ok(Json::Object(e)) => {
            proof {
                json::object_tree(e);
            }
            e.len() > 0
        },
        _ => false,
    };
    match json_to_bson(filter) {
        Ok(d) => if has_members {
            Some(d)
        } else {
            None
        },
        Err(_) => None,
    }
}

/// Plans a listing, given the document that its filter was read into, where it
/// has one that selects anything less than everything. A page of no size asks
/// for the count alone, since to the database a limit of nothing is no limit.
pub fn plan_with(
    base: Option<bson::Document>,
    id_min: u64,
    id_max: u64,
    sort_key: &str,
    skip: u64,
    limit: u64,
) -> (r: ListPlan)
    ensures
        ({
            let bounds = Bounds { min: bound(id_min), max: bound(id_max) };
            let bounded = id_min != paging::NOT_GIVEN || id_max != paging::NOT_GIVEN;
            r.selection == match base {
                Some(d) => if bounded {
                    Selection::Both(d, bounds)
                } else {
                    Selection::Filter(d)
                },
                None => if bounded {
                    Selection::Ids(bounds)
                } else {
                    Selection::Everything
                },
            }
        }),
        keys_seen(r.sort@) == sort_keys(sort_key@),
        r.skip == (if skip == paging::NOT_GIVEN {
            0u64
        } else {
            skip
        }),
        r.limit == page_size(limit),
        r.count_only == (limit == 0),
{
    let bounds = Bounds {
        min: if id_min == paging::NOT_GIVEN {
            None
        } else {
            Some(id_min)
        },
        max: if id_max == paging::NOT_GIVEN {
            None
        } else {
            Some(id_max)
        },
    };
    let bounded = id_min != paging::NOT_GIVEN || id_max != paging::NOT_GIVEN;
    let selection = match base {
        Some(d) => if bounded {
            Selection::Both(d, bounds)
        } else {
            Selection::Filter(d)
        },
        None => if bounded {
            Selection::Ids(bounds)
        } else {
            Selection::Everything
        },
    };
    ListPlan {
        selection,
        sort: plan_sort(sort_key),
        skip: if skip == paging::NOT_GIVEN {
            0
        } else {
            skip
        },
        limit: if limit > i64::MAX as u64 {
            i64::MAX
        } else {
            limit as i64
        },
        count_only: limit == 0,
    }
}

/// Plans a listing. A filter that cannot be read selects everything.
pub fn plan_list(
    id_min: u64,
    id_max: u64,
    sort_key: &str,
    filter: &str,
    skip: u64,
    limit: u64,
) -> (r: ListPlan)
    ensures
        ({
            let bounds = Bounds { min: bound(id_min), max: bound(id_max) };
            let bounded = id_min != paging::NOT_GIVEN || id_max != paging::NOT_GIVEN;
            match r.selection {
                Selection::Everything => !filters(filter@) && !bounded,
                Selection::Ids(b) => !filters(filter@) && bounded && b == bounds,
                Selection::Filter(d) => filters(filter@) && !bounded && filter_document(filter@)
                    == Some(document_tree(d)),
                Selection::Both(d, b) => filters(filter@) && bounded && b == bounds
                    && filter_document(filter@) == Some(document_tree(d)),
            }
        }),
        keys_seen(r.sort@) == sort_keys(sort_key@),
        r.skip == (if skip == paging::NOT_GIVEN {
            0u64
        } else {
            skip
        }),
        r.limit == page_size(limit),
        r.count_only == (limit == 0),
{
    plan_with(base_filter(filter), id_min, id_max, sort_key, skip, limit)
}

/// The last key of a listing is always the id, which no two items share, and it
/// runs in the direction of the first.
pub proof fn every_order_is_total(sort_key: Seq<char>)
    ensures
        sort_keys(sort_key).len() > 0,
        sort_keys(sort_key).last().0 == "id"@,
        sort_keys(sort_key).last().1 == sort_keys(sort_key)[0].1,
{
}

/// The filter that finds an account by its login or its address.
pub fn user_filter(login: &str) -> (r: String)
    ensures
        r@ == "{ \"$or\": [ { \"strs.login\": \""@ + login@ + "\" }, { \"strs.email\": \""@ + login@
            + "\" } ] }"@,
{
    cat5(
        "{ \"$or\": [ { \"strs.login\": \"",
        login,
        "\" }, { \"strs.email\": \"",
        login,
        "\" } ] }",
    )
}

/// The collections that hold items, out of all that the database has.
pub open spec fn data_collections(names: Seq<Seq<char>>) -> Seq<Seq<char>> {
    names.filter(|n: Seq<char>| n != COUNTERS_COLLECTION@)
}

/// The collections that hold items, out of all that the database has.
pub fn get_collections(names: &Vec<String>) -> (r: Vec<String>)
    ensures
        text::views(r@) == data_collections(text::views(names@)),
{
    let ghost all = text::views(names@);
    let ghost keep = |n: Seq<char>| n != COUNTERS_COLLECTION@;
    let mut out: Vec<String> = Vec::new();
    let mut i: usize = 0;
    proof {
        reveal(Seq::filter);
        assert(text::views(out@) =~= all.take(0).filter(keep));
    }
    while i < names.len()
        invariant
            i <= names.len(),
            all == text::views(names@),
            keep == |n: Seq<char>| n != COUNTERS_COLLECTION@,
            text::views(out@) == all.take(i as int).filter(keep),
        decreases names.len() - i,
    {
        let ghost had = text::views(out@);
        proof {
            reveal(Seq::filter);
            assert(all.take(i + 1).drop_last() =~= all.take(i as int));
            assert(all.take(i + 1).last() == names@[i as int]@);
            assert(keep(names@[i as int]@) == (names@[i as int]@ != COUNTERS_COLLECTION@));
        }
        if !same(names[i].as_str(), COUNTERS_COLLECTION) {
            out.push(names[i].clone());
            proof {
                assert(text::views(out@) =~= had.push(names@[i as int]@));
            }
        }
        i = i + 1;
    }
    proof {
        assert(all.take(names@.len() as int) =~= all);
    }
    out
}

// ---------------------------------------------------------------------------
// Indexes
// ---------------------------------------------------------------------------

/// An index that a collection is to have, in ascending order of a field.
pub struct Index {
    pub field: String,
    pub unique: bool,
}

/// The field of an index, and whether its values are unique.
pub open spec fn index_declared(entry: Seq<char>, collection: Seq<char>) -> Option<
    (Seq<char>, bool),
> {
    let parts = text::split(entry, ':');
    if parts.len() >= 2 && parts[0] == collection && parts[1].len() > 0 {
        Some((parts[1], parts.len() > 2 && parts[2] == "unique"@))
    } else {
        None
    }
}

/// The indexes of a collection that a table declares when read in an order.
pub open spec fn indexes_read(
    t: Map<Seq<char>, Seq<char>>,
    order: Seq<Seq<char>>,
    collection: Seq<char>,
) -> Seq<(Seq<char>, bool)>
    decreases order.len(),
{
    if order.len() == 0 {
        Seq::empty()
    } else {
        let before = indexes_read(t, order.drop_last(), collection);
        match index_declared(t[order.last()], collection) {
            Some(index) => before.push(index),
            None => before,
        }
    }
}

/// Indexes as texts.
pub open spec fn indexes_seen(v: Seq<Index>) -> Seq<(Seq<char>, bool)> {
    Seq::new(v.len(), |i: int| (v[i].field@, v[i].unique))
}

/// The indexes that the internals declare for a collection, besides the one on
/// the id. Entries read `collection:field` or `collection:field:unique`.
pub fn declared_indexes(internals: &Item, collection: &str) -> (r: Vec<Index>)
    ensures
        exists|order: Seq<Seq<char>>| #[trigger]
            route_cache::reading_order(route_cache::table(internals@, "indexes"@), order)
                && indexes_seen(r@) == indexes_read(
                route_cache::table(internals@, "indexes"@),
                order,
                collection@,
            ),
{
    let entries = internals.safe_strstr("indexes");
    let ghost t = route_cache::table(internals@, "indexes"@);
    let ghost all = entries.pairs();
    let ghost order = Seq::new(all.len(), |i: int| all[i].0);
    let n: usize = entries.len();
    let mut out: Vec<Index> = Vec::new();
    let mut i: usize = 0;
    proof {
        assert(entries@ == t);
        route_cache::order_reads(all, t, order);
        assert(order.take(0) =~= Seq::<Seq<char>>::empty());
        assert(indexes_seen(out@) =~= Seq::<(Seq<char>, bool)>::empty());
    }
    while i < n
        invariant
            i <= n,
            n == all.len(),
            all == entries.pairs(),
            order == Seq::new(all.len(), |i: int| all[i].0),
            forall|j: int| 0 <= j < n ==> t[#[trigger] order[j]] == all[j].1,
            indexes_seen(out@) == indexes_read(t, order.take(i as int), collection@),
        decreases n - i,
    {
        let parts = split_on(entries.value(i).as_str(), ':');
        proof {
            assert(order.take(i + 1).drop_last() =~= order.take(i as int));
            assert(order.take(i + 1).last() == order[i as int]);
            let views = text::views(parts@);
            assert(views.len() == parts@.len());
            assert(forall|j: int| 0 <= j < views.len() ==> views[j] == (#[trigger] parts@[j])@);
        }
        if parts.len() >= 2 && same(parts[0].as_str(), collection)
            && !parts[1].as_str().is_empty() {
            let unique = parts.len() > 2 && same(parts[2].as_str(), "unique");
            let ghost had = indexes_seen(out@);
            out.push(Index { field: parts[1].clone(), unique });
            proof {
                assert(indexes_seen(out@) =~= had.push((parts@[1]@, unique)));
            }
        }
        i = i + 1;
    }
    proof {
        assert(order.take(n as int) =~= order);
        assert(route_cache::reading_order(t, order));
    }
    out
}

// ---------------------------------------------------------------------------
// Accounts that were looked up
// ---------------------------------------------------------------------------

/// An account that was looked up, and until when it may be used again.
pub struct CachedUser {
    pub item: Item,
    pub expires: u64,
}

/// An account that was looked up, and until when it may be used again.
#[verifier::ext_equal]
pub struct CachedView {
    pub item: ItemView,
    pub expires: u64,
}

impl View for CachedUser {
    type V = CachedView;

    open spec fn view(&self) -> CachedView {
        CachedView { item: self.item@, expires: self.expires }
    }
}

/// Accounts that were looked up, by what they were looked up by, and a count of
/// the writes since.
pub struct UserCache {
    entries: StrMap<CachedUser>,
    generation: u64,
}

/// Accounts that were looked up, and a count of the writes since.
#[verifier::ext_equal]
pub struct UserCacheView {
    pub entries: Map<Seq<char>, CachedView>,
    pub generation: u64,
}

impl View for UserCache {
    type V = UserCacheView;

    closed spec fn view(&self) -> UserCacheView {
        UserCacheView { entries: self.entries@, generation: self.generation }
    }
}

impl UserCacheView {
    /// Whether an account that was looked up may be used again.
    pub open spec fn fresh(self, login: Seq<char>, now: u64) -> bool {
        self.entries.contains_key(login) && self.entries[login].expires > now
    }

    /// The next generation. The count starts again when it runs out.
    pub open spec fn next_generation(self) -> u64 {
        if self.generation == u64::MAX {
            0
        } else {
            (self.generation + 1) as u64
        }
    }

    /// The cache after a write to the accounts.
    pub open spec fn invalidated(self) -> UserCacheView {
        UserCacheView { entries: Map::empty(), generation: self.next_generation() }
    }

    /// The cache after a lookup that began in a generation has found an account.
    /// What was read before a write is not kept.
    pub open spec fn filled(
        self,
        login: Seq<char>,
        user: ItemView,
        began: u64,
        now: u64,
    ) -> UserCacheView {
        if self.generation == began {
            UserCacheView {
                entries: self.entries.insert(
                    login,
                    CachedView {
                        item: user,
                        expires: if now > u64::MAX - USER_CACHE_TTL_MS {
                            u64::MAX
                        } else {
                            (now + USER_CACHE_TTL_MS) as u64
                        },
                    },
                ),
                ..self
            }
        } else {
            self
        }
    }
}

/// How a lookup of an account goes on.
pub enum Lookup {
    /// The account is known.
    Found(Item),
    /// The database has to be asked; the lookup began in this generation.
    Ask(u64),
}

impl UserCache {
    /// No accounts.
    pub fn new() -> (r: UserCache)
        ensures
            r@.entries == Map::<Seq<char>, CachedView>::empty(),
            r@.generation == 0,
    {
        UserCache { entries: StrMap::new(), generation: 0 }
    }

    /// Begins a lookup. The key is whatever the session goes by.
    pub fn begin(&self, login: &str, now: u64) -> (r: Lookup)
        ensures
            if self@.fresh(login@, now) {
                r matches Lookup::Found(u) && u@ == self@.entries[login@].item
            } else {
                r matches Lookup::Ask(g) && g == self@.generation
            },
    {
        match self.entries.get(login) {
            Some(c) => if c.expires > now {
                Lookup::Found(c.item.clone())
            } else {
                Lookup::Ask(self.generation)
            },
            None => Lookup::Ask(self.generation),
        }
    }

    /// Ends a lookup that began in a generation, with what the database
    /// answered: an account, none, or nothing at all.
    pub fn end(
        &mut self,
        login: &str,
        began: u64,
        answer: Result<Option<Item>, String>,
        now: u64,
    ) -> (r: UserLookup)
        ensures
            match answer {
                Ok(Some(u)) => r matches UserLookup::Found(v) && v@ == u@ && final(self)@ == old(
                    self,
                )@.filled(login@, u@, began, now),
                Ok(None) => r is Absent && final(self)@ == old(self)@,
                Err(_) => r is Unavailable && final(self)@ == old(self)@,
            },
    {
        match answer {
            Ok(Some(u)) => {
                if self.generation == began {
                    let expires: u64 = if now > u64::MAX - USER_CACHE_TTL_MS {
                        u64::MAX
                    } else {
                        now + USER_CACHE_TTL_MS
                    };
                    self.entries.insert(owned(login), CachedUser { item: u.clone(), expires });
                    proof {
                        assert(self@ =~= old(self)@.filled(login@, u@, began, now));
                    }
                }
                UserLookup::Found(u)
            },
            Ok(None) => UserLookup::Absent,
            Err(_) => UserLookup::Unavailable,
        }
    }

    /// Forgets all accounts after a write, and moves on to the next generation,
    /// so that a lookup under way does not bring back what it read before.
    pub fn invalidate(&mut self)
        ensures
            final(self)@ == old(self)@.invalidated(),
    {
        self.entries = StrMap::new();
        self.generation = if self.generation == u64::MAX {
            0
        } else {
            self.generation + 1
        };
    }
}

/// A lookup that a write has overtaken leaves nothing behind: after the write,
/// no account is known until it is looked up again.
pub proof fn an_overtaken_lookup_leaves_nothing(
    c: UserCacheView,
    login: Seq<char>,
    user: ItemView,
    now: u64,
    other: Seq<char>,
    later: u64,
)
    ensures
        c.invalidated().generation != c.generation,
        c.invalidated().filled(login, user, c.generation, now) == c.invalidated(),
        !c.invalidated().fresh(other, later),
{
}

/// An account is known under what it was looked up by, for as long as it may be
/// used again, and under nothing else.
pub proof fn a_lookup_is_kept_for_its_time(
    c: UserCacheView,
    login: Seq<char>,
    user: ItemView,
    now: u64,
    later: u64,
    other: Seq<char>,
)
    requires
        now <= u64::MAX - USER_CACHE_TTL_MS,
    ensures
        ({
            let after = c.filled(login, user, c.generation, now);
            &&& after.fresh(login, later) <==> later < now + USER_CACHE_TTL_MS
            &&& after.entries[login].item == user
            &&& other != login ==> (after.fresh(other, later) <==> c.fresh(other, later))
        }),
{
}

// ---------------------------------------------------------------------------
// Numbers and writes
// ---------------------------------------------------------------------------

/// The value that the shared counter is raised to. It holds no larger numbers
/// than a signed one.
pub open spec fn counter_seed(id: u64) -> i64 {
    if id > i64::MAX {
        i64::MAX
    } else {
        id as i64
    }
}

/// The value that the shared counter is raised to.
pub fn raise_counter(id: u64) -> (r: i64)
    ensures
        r == counter_seed(id),
{
    if id > i64::MAX as u64 {
        i64::MAX
    } else {
        id as i64
    }
}

/// How a write is put to the database.
pub enum WriteStep {
    /// Ask the shared counter for a number first.
    Allocate(Item),
    /// The record has a number of the client's choosing, or can have none.
    Write(Item),
}

/// A store in a document database.
pub struct StoreMongo {
    pub path: String,
    pub local_path: String,
    pub catalog: Catalog,
    pub database_name: String,
    pub internals_cache: Option<Item>,
    pub user_cache: UserCache,
}

impl StoreMongo {
    /// A store that is not connected.
    pub fn new() -> (r: StoreMongo)
        ensures
            r.path@.len() == 0,
            r.local_path@.len() == 0,
            r.catalog@ == Map::<Seq<char>, ShelfView>::empty(),
            r.database_name@ == "isabelle"@,
            r.internals_cache is None,
            r.user_cache@.entries == Map::<Seq<char>, CachedView>::empty(),
            r.user_cache@.generation == 0,
    {
        StoreMongo {
            path: String::new(),
            local_path: String::new(),
            catalog: Catalog::new(),
            database_name: owned("isabelle"),
            internals_cache: None,
            user_cache: UserCache::new(),
        }
    }

    /// Begins a write.
    pub fn begin_write(&self, collection: &str, exp_itm: &Item) -> (r: WriteStep)
        ensures
            ({
                let clean = exp_itm@.without_bool(store::WRITE_ONLY_FLAG@);
                if exp_itm@.id == u64::MAX && self.catalog@.contains_key(collection@) {
                    r matches WriteStep::Allocate(i) && i@ == clean
                } else {
                    r matches WriteStep::Write(i) && i@ == clean
                }
            }),
    {
        let itm = storable(exp_itm);
        if itm.id == u64::MAX && self.catalog.has_collection(collection) {
            WriteStep::Allocate(itm)
        } else {
            WriteStep::Write(itm)
        }
    }

    /// The number for a new record, given what the shared counter answered. An
    /// answer that cannot be a number, or none, falls back to counting here.
    pub fn alloc_id(&mut self, collection: &str, seq: Option<i64>) -> (r: u64)
        requires
            old(self).catalog@.contains_key(collection@),
        ensures
            final(self).user_cache@ == old(self).user_cache@,
            final(self).path@ == old(self).path@,
            final(self).local_path@ == old(self).local_path@,
            final(self).internals_cache == old(self).internals_cache,
            final(self).database_name@ == old(self).database_name@,
            ({
                let was = old(self).catalog@;
                let shelf = was[collection@];
                if seq is Some && seq->Some_0 > 0 {
                    r == seq->Some_0 as u64 && final(self).catalog@ == (if r > shelf.high {
                        was.insert(collection@, (ShelfView { high: r, ..shelf }))
                    } else {
                        was
                    })
                } else {
                    r == shelf.next() && final(self).catalog@ == was.insert(
                        collection@,
                        shelf.allocated(),
                    )
                }
            }),
    {
        match seq {
            Some(s) => {
                if s > 0 {
                    let id: u64 = s as u64;
                    self.catalog.raise(collection, id);
                    return id;
                }
            },
            None => {},
        }
        match self.catalog.allocate(collection) {
            Some(id) => id,
            None => u64::MAX,
        }
    }

    /// Notes that a record was written. Returns whether the shared counter has to
    /// be raised to its number, which it has where the client chose it.
    pub fn end_write(&mut self, collection: &str, id: u64, client_chosen: bool) -> (r: bool)
        ensures
            final(self).path@ == old(self).path@,
            final(self).local_path@ == old(self).local_path@,
            final(self).database_name@ == old(self).database_name@,
            final(self).internals_cache == old(self).internals_cache,
            r == (client_chosen && id != u64::MAX),
            final(self).catalog@ == (if old(self).catalog@.contains_key(collection@) {
                old(self).catalog@.insert(
                    collection@,
                    old(self).catalog@[collection@].with_id(id),
                )
            } else {
                old(self).catalog@
            }),
            final(self).user_cache@ == (if collection@ == "user"@ {
                old(self).user_cache@.invalidated()
            } else {
                old(self).user_cache@
            }),
    {
        self.catalog.note(collection, id);
        if same(collection, "user") {
            self.user_cache.invalidate();
        }
        client_chosen && id != u64::MAX
    }

    /// Notes that a record was deleted. Returns whether it was known.
    pub fn end_delete(&mut self, collection: &str, id: u64) -> (r: bool)
        ensures
            final(self).path@ == old(self).path@,
            final(self).local_path@ == old(self).local_path@,
            final(self).database_name@ == old(self).database_name@,
            final(self).internals_cache == old(self).internals_cache,
            r == (old(self).catalog@.contains_key(collection@) && old(
                self,
            ).catalog@[collection@].ids.contains(id)),
            final(self).catalog@ == (if r {
                old(self).catalog@.insert(
                    collection@,
                    (ShelfView {
                        ids: old(self).catalog@[collection@].ids.remove(id),
                        ..old(self).catalog@[collection@]
                    }),
                )
            } else {
                old(self).catalog@
            }),
            final(self).user_cache@ == (if collection@ == "user"@ {
                old(self).user_cache@.invalidated()
            } else {
                old(self).user_cache@
            }),
    {
        if same(collection, "user") {
            self.user_cache.invalidate();
        }
        self.catalog.forget(collection, id)
    }
}

/// What a lookup by a filter comes to, before the database is asked.
pub enum FindOne {
    /// Ask for the first document of all.
    Any,
    /// Ask for the first document that the filter selects.
    With(bson::Document),
    /// Nothing matches a filter that cannot be read.
    Nothing,
}

/// What a lookup by a filter comes to, before the database is asked.
pub fn find_one_checked(filter: &str) -> (r: FindOne)
    ensures
        match r {
            FindOne::Any => filter@.len() == 0,
            FindOne::With(d) => filter@.len() > 0 && filter_document(filter@) == Some(
                document_tree(d),
            ),
            FindOne::Nothing => filter@.len() > 0 && !is_filter(filter@),
        },
{
    if filter.is_empty() {
        return FindOne::Any;
    }
    match json_to_bson(filter) {
        Ok(d) => FindOne::With(d),
        Err(_) => FindOne::Nothing,
    }
}

/// A number that the client chose is not handed out later: once the shared
/// counter was raised to it, what it counts to next is above it, within what the
/// counter can hold.
pub proof fn chosen_numbers_are_not_handed_out(id: u64, counter: i64)
    requires
        id < i64::MAX,
        counter >= counter_seed(id),
        counter < i64::MAX,
    ensures
        counter + 1 > id,
{
}

/// A sort key that does not begin with a minus sorts upwards, by the key itself; a
/// minus in front of it turns the direction round and changes nothing else. With no
/// key at all a listing goes up by the id.
pub proof fn a_minus_turns_the_order_round(k: Seq<char>)
    requires
        k.len() > 0,
        k[0] != '-',
    ensures
        ({
            let up = sort_keys(k);
            let down = sort_keys(seq!['-'] + k);
            &&& up[0] == (k, false)
            &&& up.len() == down.len()
            &&& forall|i: int|
                0 <= i < up.len() ==> (#[trigger] down[i]).0 == up[i].0 && down[i].1 == !up[i].1
            &&& forall|i: int| 0 <= i < up.len() ==> !(#[trigger] up[i]).1
            &&& up.len() == (if k == "id"@ {
                1nat
            } else {
                2nat
            })
        }),
        sort_keys(Seq::empty()) == seq![("id"@, false)],
        sort_keys(seq!['-']) == seq![(seq!['-'], false), ("id"@, false)],
{
    let m = seq!['-'] + k;
    assert(m.skip(1) =~= k);
    reveal_strlit("id");
    assert(seq!['-'].len() != "id"@.len());
}

/// Only a bound that is given bounds anything, and a page of any size that the
/// database can count to has that size.
pub proof fn bounds_are_what_is_given(n: u64)
    ensures
        n < u64::MAX ==> bound(n) == Some(n),
        bound(u64::MAX) is None,
        n <= i64::MAX ==> page_size(n) == n,
        n > i64::MAX ==> page_size(n) == i64::MAX,
        n <= i64::MAX ==> counter_seed(n) == n,
        n > i64::MAX ==> counter_seed(n) == i64::MAX,
{
}

/// A filter selects anything less than everything where it reads as an object with
/// members that the database can be given.
pub proof fn what_a_filter_selects(filter: Seq<char>)
    ensures
        filter.len() == 0 ==> !filters(filter),
        json::parsed(filter) is Err ==> !filters(filter) && !is_filter(filter),
        json::parsed(filter) matches Ok(t) ==> (is_filter(filter) <==> bson_made(t) is Some),
        json::parsed(filter) matches Ok(JsonView::Object(e)) ==> (filters(filter) <==> filter.len()
            > 0 && e.len() > 0 && bson_made(JsonView::Object(e)) is Some),
        json::parsed(filter) matches Ok(t) ==> filter_document(filter) == bson_made(t),
{
}

/// Every collection of the database holds items but the one of the counters.
pub proof fn the_counters_are_no_items(names: Seq<Seq<char>>, n: Seq<char>)
    ensures
        data_collections(names).contains(n) <==> names.contains(n) && n != "__id_counters"@,
    decreases names.len(),
{
    reveal(Seq::filter);
    if names.len() > 0 {
        let head = names.drop_last();
        the_counters_are_no_items(head, n);
        let before = data_collections(head);
        let all = data_collections(names);
        if before.contains(n) {
            let x = choose|x: int| 0 <= x < before.len() && before[x] == n;
            assert(all[x] == n);
        }
        if names.last() == n && n != "__id_counters"@ {
            assert(all[all.len() - 1] == n);
        }
        if all.contains(n) {
            let x = choose|x: int| 0 <= x < all.len() && all[x] == n;
            if x < before.len() {
                assert(before[x] == n);
            }
        }
        if names.contains(n) {
            let x = choose|x: int| 0 <= x < names.len() && names[x] == n;
            if x < head.len() {
                assert(head[x] == n);
            }
        }
        if head.contains(n) {
            let x = choose|x: int| 0 <= x < head.len() && head[x] == n;
            assert(names[x] == n);
        }
        assert(names[names.len() - 1] == names.last());
    }
}

/// An account that was looked up is used again for half a minute, and a write to the
/// accounts forgets all that were.
pub proof fn lookups_last_half_a_minute(
    c: UserCacheView,
    login: Seq<char>,
    user: ItemView,
    now: u64,
    later: u64,
)
    requires
        now + 30000 <= u64::MAX,
    ensures
        c.filled(login, user, c.generation, now).fresh(login, later) <==> later < now + 30000,
        c.filled(login, user, c.generation, now).entries[login].item == user,
        c.filled(login, user, c.generation, now).generation == c.generation,
        c.invalidated().entries == Map::<Seq<char>, CachedView>::empty(),
        c.generation < u64::MAX ==> c.invalidated().generation == c.generation + 1,
{
}

proof fn two_parts(a: Seq<char>, b: Seq<char>)
    requires
        !a.contains(':'),
        !b.contains(':'),
    ensures
        text::split(a + seq![':'] + b, ':') == seq![a, b],
{
    let s = a + seq![':'] + b;
    assert forall|j: int| 0 <= j < a.len() implies s[j] != ':' by {
        assert(a.contains(a[j]));
        assert(s[j] == a[j]);
    }
    assert(s[a.len() as int] == ':');
    text::position_unique(s, ':', 0, a.len() as int);
    assert(s.take(a.len() as int) =~= a);
    assert(s.skip(a.len() as int + 1) =~= b);
    assert forall|j: int| 0 <= j < b.len() implies b[j] != ':' by {
        assert(b.contains(b[j]));
    }
    text::position_unique(b, ':', 0, b.len() as int);
    assert(text::split(b, ':') =~= seq![b]);
    assert(text::split(s, ':') =~= seq![a, b]);
}

/// An index is declared by its collection and its field, for that collection alone,
/// and its values are unique where the entry says so.
pub proof fn what_declares_an_index(c: Seq<char>, field: Seq<char>, other: Seq<char>)
    requires
        !c.contains(':'),
        !field.contains(':'),
        field.len() > 0,
        other != c,
    ensures
        index_declared(c + seq![':'] + field, c) == Some((field, false)),
        index_declared(c + seq![':'] + field, other) is None,
        index_declared(c + seq![':'] + field + seq![':'] + "unique"@, c) == Some((field, true)),
{
    two_parts(c, field);
    reveal_strlit("unique");
    assert(!"unique"@.contains(':'));
    two_parts(field, "unique"@);
    let rest = field + seq![':'] + "unique"@;
    let s = c + seq![':'] + field + seq![':'] + "unique"@;
    assert(s =~= c + seq![':'] + rest);
    assert forall|j: int| 0 <= j < c.len() implies s[j] != ':' by {
        assert(c.contains(c[j]));
        assert(s[j] == c[j]);
    }
    assert(s[c.len() as int] == ':');
    text::position_unique(s, ':', 0, c.len() as int);
    assert(s.take(c.len() as int) =~= c);
    assert(s.skip(c.len() as int + 1) =~= rest);
    assert(text::split(s, ':') =~= seq![c, field, "unique"@]);
}

/// The indexes of a collection are those that entries declare for it.
pub proof fn indexes_come_from_entries(
    t: Map<Seq<char>, Seq<char>>,
    order: Seq<Seq<char>>,
    collection: Seq<char>,
    index: (Seq<char>, bool),
)
    ensures
        indexes_read(t, order, collection).contains(index) <==> exists|i: int|
            0 <= i < order.len() && #[trigger] index_declared(t[order[i]], collection) == Some(
                index,
            ),
        indexes_read(t, order, collection).len() <= order.len(),
    decreases order.len(),
{
    if order.len() > 0 {
        let head = order.drop_last();
        indexes_come_from_entries(t, head, collection, index);
        let before = indexes_read(t, head, collection);
        let all = indexes_read(t, order, collection);
        assert(order[order.len() - 1] == order.last());
        assert forall|i: int| 0 <= i < head.len() implies #[trigger] head[i] == order[i] by {}
        if before.contains(index) {
            let x = choose|x: int| 0 <= x < before.len() && before[x] == index;
            assert(all[x] == index);
            let i = choose|i: int|
                0 <= i < head.len() && #[trigger] index_declared(t[head[i]], collection) == Some(
                    index,
                );
            assert(index_declared(t[order[i]], collection) == Some(index));
        }
        if index_declared(t[order.last()], collection) == Some(index) {
            assert(all[all.len() - 1] == index);
            assert(index_declared(t[order[order.len() - 1]], collection) == Some(index));
        }
        if all.contains(index) {
            let x = choose|x: int| 0 <= x < all.len() && all[x] == index;
            if x < before.len() {
                assert(before[x] == index);
            }
        }
        if exists|i: int|
            0 <= i < order.len() && #[trigger] index_declared(t[order[i]], collection) == Some(
                index,
            ) {
            let i = choose|i: int|
                0 <= i < order.len() && #[trigger] index_declared(t[order[i]], collection) == Some(
                    index,
                );
            if i < head.len() {
                assert(index_declared(t[head[i]], collection) == Some(index));
            }
        }
    }
}

} // verus!
