//! What the server holds.
use crate::args;
use crate::item::{Item, ItemView};
use crate::state::route_cache;
use crate::state::route_cache::RouteCache;
use crate::state::secrets::SecretStore;
use crate::text;
use vstd::prelude::*;

verus! {

/// What the server holds beside its store.
pub struct Data {
    /// The path to the calendar script.
    pub gc_path: String,
    /// The path to the Python binary.
    pub py_path: String,
    pub data_path: String,
    /// The address that links back to this server begin with.
    pub public_url: String,
    pub port: u16,
    /// The largest request body that is taken, in bytes.
    pub max_payload_bytes: usize,
    /// How long a request body may take, in seconds.
    pub body_timeout_secs: u64,
    /// Whether the description of the API is for those who are signed in.
    pub openapi_private: bool,
    /// The script that an update runs.
    pub update_script: String,
    pub secrets: Option<SecretStore>,
    /// The routing tables, as they were read at startup.
    pub route_cache: RouteCache,
}

/// The port that the server listens on where none is given.
pub const DEFAULT_PORT: u16 = 8090;

impl Data {
    /// What the server holds before it was told anything.
    pub fn new() -> (r: Data)
        ensures
            r.gc_path@.len() == 0,
            r.py_path@.len() == 0,
            r.data_path@.len() == 0,
            r.public_url@.len() == 0,
            r.port == 8090,
            r.max_payload_bytes == args::DEFAULT_MAX_PAYLOAD_BYTES,
            r.body_timeout_secs == args::DEFAULT_BODY_TIMEOUT_SECS,
            !r.openapi_private,
            r.update_script@.len() == 0,
            r.secrets is None,
            r.route_cache.url_routes@ == Map::<Seq<char>, Seq<char>>::empty(),
            r.route_cache.unprotected_url_routes@ == Map::<Seq<char>, Seq<char>>::empty(),
            r.route_cache.rest_routes@ == Map::<Seq<char>, Seq<char>>::empty(),
            r.route_cache.item_pre_edit@ == Map::<Seq<char>, Seq<Seq<char>>>::empty(),
            r.route_cache.item_pre_edit_wildcard@.len() == 0,
            r.route_cache.item_post_edit@ == Map::<Seq<char>, Seq<Seq<char>>>::empty(),
            r.route_cache.item_post_edit_wildcard@.len() == 0,
    {
        Data {
            gc_path: String::new(),
            py_path: String::new(),
            data_path: String::new(),
            public_url: String::new(),
            port: DEFAULT_PORT,
            max_payload_bytes: args::DEFAULT_MAX_PAYLOAD_BYTES,
            body_timeout_secs: args::DEFAULT_BODY_TIMEOUT_SECS,
            openapi_private: false,
            update_script: String::new(),
            secrets: None,
            route_cache: RouteCache::empty(),
        }
    }

    /// Reads the routing tables anew.
    pub fn rebuild_route_cache(&mut self, internals: &Item)
        ensures
            tables_are(final(self).route_cache, internals@),
            *final(self) == (Data { route_cache: final(self).route_cache, ..*old(self) }),
    {
        self.route_cache = RouteCache::from_internals(internals);
    }
}

/// Whether routing tables are those that the internals give.
pub open spec fn tables_are(cache: RouteCache, internals: ItemView) -> bool {
    &&& route_cache::routes_of(
        route_cache::table(internals, "extra_route"@),
        cache.url_routes@,
    )
    &&& route_cache::routes_of(
        route_cache::table(internals, "extra_unprotected_route"@),
        cache.unprotected_url_routes@,
    )
    &&& route_cache::routes_of(
        route_cache::table(internals, "extra_rest_route"@),
        cache.rest_routes@,
    )
    &&& route_cache::hooks_of(
        route_cache::table(internals, "item_pre_edit_hook"@),
        cache.item_pre_edit@,
        text::views(cache.item_pre_edit_wildcard@),
    )
    &&& route_cache::hooks_of(
        route_cache::table(internals, "item_post_edit_hook"@),
        cache.item_post_edit@,
        text::views(cache.item_post_edit_wildcard@),
    )
}

/// Each routing table is that of its own entry of the internals: a path that is routed
/// for those who are signed in, for everybody, or with its whole body is one that the
/// table of that name has.
pub proof fn which_table_a_route_is_in(cache: RouteCache, internals: ItemView, path: Seq<char>)
    requires
        tables_are(cache, internals),
    ensures
        cache.url_routes@.contains_key(path) ==> internals.strstrs.contains_key("extra_route"@),
        cache.unprotected_url_routes@.contains_key(path) ==> internals.strstrs.contains_key(
            "extra_unprotected_route"@,
        ),
        cache.rest_routes@.contains_key(path) ==> internals.strstrs.contains_key(
            "extra_rest_route"@,
        ),
        cache.item_pre_edit@.contains_key(path) ==> internals.strstrs.contains_key(
            "item_pre_edit_hook"@,
        ),
        cache.item_post_edit@.contains_key(path) ==> internals.strstrs.contains_key(
            "item_post_edit_hook"@,
        ),
        internals.strstrs.contains_key("extra_route"@) ==> (cache.url_routes@.contains_key(path)
            <==> exists|k: Seq<char>|
            internals.strstrs["extra_route"@].contains_key(k) && (
            #[trigger] route_cache::path_route(internals.strstrs["extra_route"@][k])) is Some
                && route_cache::path_route(internals.strstrs["extra_route"@][k])->Some_0.0 == path),
        internals.strstrs.contains_key("extra_unprotected_route"@) ==> (
        cache.unprotected_url_routes@.contains_key(path) <==> exists|k: Seq<char>|
            internals.strstrs["extra_unprotected_route"@].contains_key(k) && (
            #[trigger] route_cache::path_route(
                internals.strstrs["extra_unprotected_route"@][k],
            )) is Some && route_cache::path_route(
                internals.strstrs["extra_unprotected_route"@][k],
            )->Some_0.0 == path),
        internals.strstrs.contains_key("extra_rest_route"@) ==> (cache.rest_routes@.contains_key(
            path,
        ) <==> exists|k: Seq<char>|
            internals.strstrs["extra_rest_route"@].contains_key(k) && (
            #[trigger] route_cache::path_route(internals.strstrs["extra_rest_route"@][k])) is Some
                && route_cache::path_route(internals.strstrs["extra_rest_route"@][k])->Some_0.0
                == path),
{
    let a = route_cache::table(internals, "extra_route"@);
    let b = route_cache::table(internals, "extra_unprotected_route"@);
    let c = route_cache::table(internals, "extra_rest_route"@);
    route_cache::where_routes_lead(a, cache.url_routes@, path);
    route_cache::where_routes_lead(b, cache.unprotected_url_routes@, path);
    route_cache::where_routes_lead(c, cache.rest_routes@, path);
    named_by_an_entry(
        route_cache::table(internals, "item_pre_edit_hook"@),
        cache.item_pre_edit@,
        text::views(cache.item_pre_edit_wildcard@),
        path,
    );
    named_by_an_entry(
        route_cache::table(internals, "item_post_edit_hook"@),
        cache.item_post_edit@,
        text::views(cache.item_post_edit_wildcard@),
        path,
    );
}

proof fn named_by_an_entry(
    t: Map<Seq<char>, Seq<char>>,
    by_collection: Map<Seq<char>, Seq<Seq<char>>>,
    wildcard: Seq<Seq<char>>,
    collection: Seq<char>,
)
    requires
        route_cache::hooks_of(t, by_collection, wildcard),
    ensures
        by_collection.contains_key(collection) ==> exists|k: Seq<char>| #[trigger]
            t.contains_key(k),
{
    let own = by_collection[collection];
    route_cache::whom_hooks_serve(t, by_collection, wildcard, collection, own[0]);
    if by_collection.contains_key(collection) {
        assert(own.contains(own[0]));
    }
}

} // verus!
