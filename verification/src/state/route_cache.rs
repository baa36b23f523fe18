//! Routing tables, read out of the deployment's internals once.
use crate::collections;
use crate::collections::{Duplicate, StrMap};
use crate::item::{Item, ItemView};
use crate::text;
use crate::text::{same, split_on};
use vstd::prelude::*;

verus! {

/// Names of handlers, in the order in which they are called.
pub struct Handlers {
    pub names: Vec<String>,
}

impl View for Handlers {
    type V = Seq<Seq<char>>;

    open spec fn view(&self) -> Seq<Seq<char>> {
        text::views(self.names@)
    }
}

impl Duplicate for Handlers {
    fn duplicate(&self) -> (r: Self) {
        Handlers { names: copy_names(&self.names) }
    }
}

/// A copy of a list of names.
pub fn copy_names(names: &Vec<String>) -> (r: Vec<String>)
    ensures
        text::views(r@) == text::views(names@),
{
    let mut out: Vec<String> = Vec::new();
    let mut i: usize = 0;
    while i < names.len()
        invariant
            i <= names.len(),
            text::views(out@) == text::views(names@).take(i as int),
        decreases names.len() - i,
    {
        let ghost had = text::views(out@);
        out.push(names[i].clone());
        proof {
            assert(text::views(out@) =~= had.push(names@[i as int]@));
            assert(text::views(names@).take(i + 1) =~= had.push(names@[i as int]@));
        }
        i = i + 1;
    }
    proof {
        assert(text::views(names@).take(names@.len() as int) =~= text::views(names@));
    }
    out
}

/// The path and the handler that an entry `path:method:handler` gives. The
/// method is left to whoever registers the route.
pub open spec fn path_route(entry: Seq<char>) -> Option<(Seq<char>, Seq<char>)> {
    let parts = text::split(entry, ':');
    if parts.len() >= 3 && parts[0].len() > 0 && parts[2].len() > 0 {
        Some((parts[0], parts[2]))
    } else {
        None
    }
}

/// The collection and the handler that an entry `collection:handler` gives; the
/// collection is `*` for a hook of all collections.
pub open spec fn collection_hook(entry: Seq<char>) -> Option<(Seq<char>, Seq<char>)> {
    let parts = text::split(entry, ':');
    if parts.len() >= 2 && parts[0].len() > 0 && parts[1].len() > 0 {
        Some((parts[0], parts[1]))
    } else {
        None
    }
}

/// The path and the scope that an entry `path:scope` gives.
pub open spec fn route_scope(entry: Seq<char>) -> Option<(Seq<char>, Seq<char>)> {
    let parts = text::split(entry, ':');
    if parts.len() >= 2 && parts[0].len() > 0 && parts[1].len() > 0 {
        Some((parts[0], parts[1]))
    } else {
        None
    }
}

/// A table of the internals; empty where there is none of that name.
pub open spec fn table(internals: ItemView, name: Seq<char>) -> Map<Seq<char>, Seq<char>> {
    if internals.strstrs.contains_key(name) {
        internals.strstrs[name]
    } else {
        Map::empty()
    }
}

/// Whether a list names every key of a table once: an order in which its
/// entries can be read. A table has no order of its own.
pub open spec fn reading_order(t: Map<Seq<char>, Seq<char>>, order: Seq<Seq<char>>) -> bool {
    order.no_duplicates() && order.to_set() == t.dom()
}

/// The routes of a table that is read in an order. Where two entries have one
/// path, the later counts.
pub open spec fn routes_read(t: Map<Seq<char>, Seq<char>>, order: Seq<Seq<char>>) -> Map<
    Seq<char>,
    Seq<char>,
>
    decreases order.len(),
{
    if order.len() == 0 {
        Map::empty()
    } else {
        let before = routes_read(t, order.drop_last());
        match path_route(t[order.last()]) {
            Some((path, handler)) => before.insert(path, handler),
            None => before,
        }
    }
}

/// The scopes of a table that is read in an order. Where two entries have one
/// path, the later counts.
pub open spec fn scopes_read(t: Map<Seq<char>, Seq<char>>, order: Seq<Seq<char>>) -> Map<
    Seq<char>,
    Seq<char>,
>
    decreases order.len(),
{
    if order.len() == 0 {
        Map::empty()
    } else {
        let before = scopes_read(t, order.drop_last());
        match route_scope(t[order.last()]) {
            Some((path, scope)) => before.insert(path, scope),
            None => before,
        }
    }
}

/// Whether scopes are those of a table.
pub open spec fn scopes_of_table(
    t: Map<Seq<char>, Seq<char>>,
    scopes: Map<Seq<char>, Seq<char>>,
) -> bool {
    exists|order: Seq<Seq<char>>| #[trigger]
        reading_order(t, order) && scopes == scopes_read(t, order)
}

/// The hooks of a collection in a table that is read in an order.
pub open spec fn hooks_read(
    t: Map<Seq<char>, Seq<char>>,
    order: Seq<Seq<char>>,
    collection: Seq<char>,
) -> Seq<Seq<char>>
    decreases order.len(),
{
    if order.len() == 0 {
        Seq::empty()
    } else {
        let before = hooks_read(t, order.drop_last(), collection);
        match collection_hook(t[order.last()]) {
            Some((c, handler)) => if c == collection {
                before.push(handler)
            } else {
                before
            },
            None => before,
        }
    }
}

/// Whether routes are those of a table.
pub open spec fn routes_of(t: Map<Seq<char>, Seq<char>>, routes: Map<Seq<char>, Seq<char>>) -> bool {
    exists|order: Seq<Seq<char>>| #[trigger]
        reading_order(t, order) && routes == routes_read(t, order)
}

/// Whether hooks by collection and hooks of all collections are those of a
/// table.
pub open spec fn hooks_of(
    t: Map<Seq<char>, Seq<char>>,
    by_collection: Map<Seq<char>, Seq<Seq<char>>>,
    wildcard: Seq<Seq<char>>,
) -> bool {
    exists|order: Seq<Seq<char>>| #[trigger]
        reading_order(t, order) && hooks_match(t, order, by_collection, wildcard)
}

/// Whether hooks are those of a table that is read in an order.
pub open spec fn hooks_match(
    t: Map<Seq<char>, Seq<char>>,
    order: Seq<Seq<char>>,
    by_collection: Map<Seq<char>, Seq<Seq<char>>>,
    wildcard: Seq<Seq<char>>,
) -> bool {
    &&& wildcard == hooks_read(t, order, "*"@)
    &&& forall|c: Seq<char>|
        #![trigger by_collection.contains_key(c)]
        #![trigger hooks_read(t, order, c)]
        {
            &&& by_collection.contains_key(c) <==> c != "*"@ && hooks_read(t, order, c).len() > 0
            &&& by_collection.contains_key(c) ==> by_collection[c] == hooks_read(t, order, c)
        }
}

/// The routing tables.
pub struct RouteCache {
    /// Routes that need a session: path to handler.
    pub url_routes: StrMap<String>,
    /// Routes that are open to everyone.
    pub unprotected_url_routes: StrMap<String>,
    /// Routes that take a raw body.
    pub rest_routes: StrMap<String>,
    /// Hooks before an edit, by collection.
    pub item_pre_edit: StrMap<Handlers>,
    /// Hooks before an edit of any collection.
    pub item_pre_edit_wildcard: Vec<String>,
    /// Hooks after an edit, by collection.
    pub item_post_edit: StrMap<Handlers>,
    /// Hooks after an edit of any collection.
    pub item_post_edit_wildcard: Vec<String>,
    /// The scope that a token needs for a route: path to scope.
    pub route_scopes: StrMap<String>,
}

fn read_routes(internals: &Item, name: &str) -> (r: StrMap<String>)
    ensures
        routes_of(table(internals@, name@), r@),
{
    let entries = internals.safe_strstr(name);
    let ghost t = table(internals@, name@);
    let ghost all = entries.pairs();
    let ghost order = Seq::new(all.len(), |i: int| all[i].0);
    let n: usize = entries.len();
    let mut out: StrMap<String> = StrMap::new();
    let mut i: usize = 0;
    proof {
        assert(entries@ == t);
        order_reads(all, t, order);
        assert(order.take(0) =~= Seq::<Seq<char>>::empty());
    }
    while i < n
        invariant
            i <= n,
            n == all.len(),
            all == entries.pairs(),
            order == Seq::new(all.len(), |i: int| all[i].0),
            forall|j: int| 0 <= j < n ==> t[#[trigger] order[j]] == all[j].1,
            out@ == routes_read(t, order.take(i as int)),
        decreases n - i,
    {
        let parts = split_on(entries.value(i).as_str(), ':');
        proof {
            assert(order.take(i + 1).drop_last() =~= order.take(i as int));
            assert(order.take(i + 1).last() == order[i as int]);
            let views = text::views(parts@);
            assert(views.len() == parts@.len());
            assert(forall|j: int| 0 <= j < views.len() ==> views[j] == (#[trigger] parts@[j])@);
        }
        if parts.len() >= 3 && !parts[0].as_str().is_empty() && !parts[2].as_str().is_empty() {
            out.insert(parts[0].clone(), parts[2].clone());
        }
        i = i + 1;
    }
    proof {
        assert(order.take(n as int) =~= order);
        assert(reading_order(t, order));
    }
    out
}

fn read_scopes(internals: &Item, name: &str) -> (r: StrMap<String>)
    ensures
        scopes_of_table(table(internals@, name@), r@),
{
    let entries = internals.safe_strstr(name);
    let ghost t = table(internals@, name@);
    let ghost all = entries.pairs();
    let ghost order = Seq::new(all.len(), |i: int| all[i].0);
    let n: usize = entries.len();
    let mut out: StrMap<String> = StrMap::new();
    let mut i: usize = 0;
    proof {
        assert(entries@ == t);
        order_reads(all, t, order);
        assert(order.take(0) =~= Seq::<Seq<char>>::empty());
    }
    while i < n
        invariant
            i <= n,
            n == all.len(),
            all == entries.pairs(),
            order == Seq::new(all.len(), |i: int| all[i].0),
            forall|j: int| 0 <= j < n ==> t[#[trigger] order[j]] == all[j].1,
            out@ == scopes_read(t, order.take(i as int)),
        decreases n - i,
    {
        let parts = split_on(entries.value(i).as_str(), ':');
        proof {
            assert(order.take(i + 1).drop_last() =~= order.take(i as int));
            assert(order.take(i + 1).last() == order[i as int]);
            let views = text::views(parts@);
            assert(views.len() == parts@.len());
            assert(forall|j: int| 0 <= j < views.len() ==> views[j] == (#[trigger] parts@[j])@);
        }
        if parts.len() >= 2 && !parts[0].as_str().is_empty() && !parts[1].as_str().is_empty() {
            out.insert(parts[0].clone(), parts[1].clone());
        }
        i = i + 1;
    }
    proof {
        assert(order.take(n as int) =~= order);
        assert(reading_order(t, order));
    }
    out
}

/// The order in which the entries of a table stand is one in which it can be read.
pub proof fn order_reads(
    all: Seq<(Seq<char>, Seq<char>)>,
    t: Map<Seq<char>, Seq<char>>,
    order: Seq<Seq<char>>,
)
    requires
        collections::distinct_keys(all),
        t == collections::map_of(all),
        order == Seq::new(all.len(), |i: int| all[i].0),
    ensures
        reading_order(t, order),
        forall|j: int| 0 <= j < all.len() ==> t[#[trigger] order[j]] == all[j].1,
{
    assert forall|i: int, j: int| 0 <= i < order.len() && 0 <= j < order.len() && i != j implies order[i]
        != order[j] by {
        if i < j {
            assert(all[i].0 != all[j].0);
        } else {
            assert(all[j].0 != all[i].0);
        }
    }
    assert forall|j: int| 0 <= j < all.len() implies t[#[trigger] order[j]] == all[j].1 by {
        collections::map_of_has(all, j);
    }
    assert forall|k: Seq<char>| order.to_set().contains(k) <==> t.dom().contains(k) by {
        if order.contains(k) {
            let j = choose|j: int| 0 <= j < order.len() && order[j] == k;
            collections::map_of_has(all, j);
        }
        if t.contains_key(k) {
            let j = collections::map_of_from(all, k);
            assert(order[j] == k);
        }
    }
    assert(order.to_set() =~= t.dom());
}

fn add_hook(by_collection: &mut StrMap<Handlers>, collection: String, handler: String)
    ensures
        final(by_collection)@ == old(by_collection)@.insert(
            collection@,
            (if old(by_collection)@.contains_key(collection@) {
                old(by_collection)@[collection@]
            } else {
                Seq::<Seq<char>>::empty()
            }).push(handler@),
        ),
{
    let ghost was = by_collection@;
    let mut names: Vec<String> = match by_collection.remove(collection.as_str()) {
        Some(h) => h.names,
        None => Vec::new(),
    };
    let ghost had = text::views(names@);
    let ghost key = collection@;
    let ghost added = handler@;
    names.push(handler);
    proof {
        assert(text::views(names@) =~= had.push(added));
        if !was.contains_key(key) {
            assert(had =~= Seq::<Seq<char>>::empty());
        }
    }
    by_collection.insert(collection, Handlers { names });
    proof {
        assert(by_collection@ =~= was.insert(key, had.push(added)));
    }
}

fn read_hooks(internals: &Item, name: &str) -> (r: (StrMap<Handlers>, Vec<String>))
    ensures
        hooks_of(table(internals@, name@), r.0@, text::views(r.1@)),
{
    let entries = internals.safe_strstr(name);
    let ghost t = table(internals@, name@);
    let ghost all = entries.pairs();
    let ghost order = Seq::new(all.len(), |i: int| all[i].0);
    let n: usize = entries.len();
    let mut by_collection: StrMap<Handlers> = StrMap::new();
    let mut wildcard: Vec<String> = Vec::new();
    let mut i: usize = 0;
    proof {
        assert(entries@ == t);
        order_reads(all, t, order);
        assert(order.take(0) =~= Seq::<Seq<char>>::empty());
        assert(text::views(wildcard@) =~= Seq::<Seq<char>>::empty());
    }
    while i < n
        invariant
            i <= n,
            n == all.len(),
            all == entries.pairs(),
            order == Seq::new(all.len(), |i: int| all[i].0),
            forall|j: int| 0 <= j < n ==> t[#[trigger] order[j]] == all[j].1,
            hooks_match(t, order.take(i as int), by_collection@, text::views(wildcard@)),
        decreases n - i,
    {
        let ghost done = order.take(i as int);
        let ghost next = order.take(i + 1);
        let ghost was = by_collection@;
        let ghost had = text::views(wildcard@);
        let parts = split_on(entries.value(i).as_str(), ':');
        proof {
            assert(next.drop_last() =~= done);
            assert(next.last() == order[i as int]);
            let views = text::views(parts@);
            assert(views.len() == parts@.len());
            assert(forall|j: int| 0 <= j < views.len() ==> views[j] == (#[trigger] parts@[j])@);
            reveal_strlit("*");
            assert("*"@.len() == 1);
        }
        if parts.len() >= 2 && !parts[1].as_str().is_empty() {
            if same(parts[0].as_str(), "*") {
                wildcard.push(parts[1].clone());
                proof {
                    assert(text::views(wildcard@) =~= had.push(parts@[1]@));
                }
            } else if !parts[0].as_str().is_empty() {
                add_hook(&mut by_collection, parts[0].clone(), parts[1].clone());
            }
        }
        proof {
            let now = by_collection@;
            assert forall|c: Seq<char>|
                #![trigger now.contains_key(c)]
                #![trigger hooks_read(t, next, c)]
                (now.contains_key(c) <==> c != "*"@ && hooks_read(t, next, c).len() > 0) && (
                now.contains_key(c) ==> now[c] == hooks_read(t, next, c)) by {
                let before = hooks_read(t, done, c);
                assert(was.contains_key(c) <==> c != "*"@ && before.len() > 0);
                if !was.contains_key(c) && c != "*"@ {
                    assert(before =~= Seq::<Seq<char>>::empty());
                }
            }
            assert(hooks_match(t, next, now, text::views(wildcard@)));
        }
        i = i + 1;
    }
    proof {
        assert(order.take(n as int) =~= order);
        assert(reading_order(t, order));
    }
    (by_collection, wildcard)
}

impl RouteCache {
    /// The tables with nothing in them.
    pub fn empty() -> (r: RouteCache)
        ensures
            r.url_routes@ == Map::<Seq<char>, Seq<char>>::empty(),
            r.unprotected_url_routes@ == Map::<Seq<char>, Seq<char>>::empty(),
            r.rest_routes@ == Map::<Seq<char>, Seq<char>>::empty(),
            r.item_pre_edit@ == Map::<Seq<char>, Seq<Seq<char>>>::empty(),
            r.item_pre_edit_wildcard@.len() == 0,
            r.item_post_edit@ == Map::<Seq<char>, Seq<Seq<char>>>::empty(),
            r.item_post_edit_wildcard@.len() == 0,
            r.route_scopes@ == Map::<Seq<char>, Seq<char>>::empty(),
    {
        RouteCache {
            url_routes: StrMap::new(),
            unprotected_url_routes: StrMap::new(),
            rest_routes: StrMap::new(),
            item_pre_edit: StrMap::new(),
            item_pre_edit_wildcard: Vec::new(),
            item_post_edit: StrMap::new(),
            item_post_edit_wildcard: Vec::new(),
            route_scopes: StrMap::new(),
        }
    }

    /// Reads the tables out of the internals. Malformed entries are skipped.
    pub fn from_internals(internals: &Item) -> (r: RouteCache)
        ensures
            routes_of(table(internals@, "extra_route"@), r.url_routes@),
            routes_of(table(internals@, "extra_unprotected_route"@), r.unprotected_url_routes@),
            routes_of(table(internals@, "extra_rest_route"@), r.rest_routes@),
            hooks_of(
                table(internals@, "item_pre_edit_hook"@),
                r.item_pre_edit@,
                text::views(r.item_pre_edit_wildcard@),
            ),
            hooks_of(
                table(internals@, "item_post_edit_hook"@),
                r.item_post_edit@,
                text::views(r.item_post_edit_wildcard@),
            ),
            scopes_of_table(table(internals@, "route_scope"@), r.route_scopes@),
    {
        let (item_pre_edit, item_pre_edit_wildcard) = read_hooks(internals, "item_pre_edit_hook");
        let (item_post_edit, item_post_edit_wildcard) = read_hooks(
            internals,
            "item_post_edit_hook",
        );
        RouteCache {
            url_routes: read_routes(internals, "extra_route"),
            unprotected_url_routes: read_routes(internals, "extra_unprotected_route"),
            rest_routes: read_routes(internals, "extra_rest_route"),
            item_pre_edit,
            item_pre_edit_wildcard,
            item_post_edit,
            item_post_edit_wildcard,
            route_scopes: read_scopes(internals, "route_scope"),
        }
    }
}

/// The hooks of a collection, then those of all collections: what is called
/// around an edit.
pub open spec fn hooks_for(
    by_collection: Map<Seq<char>, Seq<Seq<char>>>,
    wildcard: Seq<Seq<char>>,
    collection: Seq<char>,
) -> Seq<Seq<char>> {
    if by_collection.contains_key(collection) {
        by_collection[collection] + wildcard
    } else {
        wildcard
    }
}

/// The hooks of a collection, then those of all collections.
pub fn hooks_to_call(
    by_collection: &StrMap<Handlers>,
    wildcard: &Vec<String>,
    collection: &str,
) -> (r: Vec<String>)
    ensures
        text::views(r@) == hooks_for(by_collection@, text::views(wildcard@), collection@),
{
    let mut out: Vec<String> = match by_collection.get(collection) {
        Some(h) => copy_names(&h.names),
        None => Vec::new(),
    };
    let ghost first = text::views(out@);
    let ghost all = text::views(wildcard@);
    let mut i: usize = 0;
    proof {
        assert(first + all.take(0) =~= first);
    }
    while i < wildcard.len()
        invariant
            i <= wildcard.len(),
            all == text::views(wildcard@),
            text::views(out@) == first + all.take(i as int),
        decreases wildcard.len() - i,
    {
        let ghost had = text::views(out@);
        out.push(wildcard[i].clone());
        proof {
            assert(text::views(out@) =~= had.push(all[i as int]));
            assert(first + all.take(i + 1) =~= had.push(all[i as int]));
        }
        i = i + 1;
    }
    proof {
        assert(all.take(wildcard@.len() as int) =~= all);
        if !by_collection@.contains_key(collection@) {
            assert(first + all =~= all);
        }
    }
    out
}

/// Every route of a table is an entry of it, and every entry that is well
/// formed gives its path a handler.
pub proof fn routes_come_from_entries(
    t: Map<Seq<char>, Seq<char>>,
    order: Seq<Seq<char>>,
    path: Seq<char>,
)
    ensures
        routes_read(t, order).contains_key(path) <==> exists|i: int|
            0 <= i < order.len() && (#[trigger] path_route(t[order[i]])) is Some && path_route(
                t[order[i]],
            )->Some_0.0 == path,
        routes_read(t, order).contains_key(path) ==> exists|i: int|
            0 <= i < order.len() && #[trigger] path_route(t[order[i]]) == Some(
                (path, routes_read(t, order)[path]),
            ),
    decreases order.len(),
{
    if order.len() > 0 {
        let rest = order.drop_last();
        routes_come_from_entries(t, rest, path);
        let last = order.len() - 1;
        let given = path_route(t[order[last]]);
        assert(order.last() == order[last]);
        if given is Some && given->Some_0.0 == path {
            assert(path_route(t[order[last]]) == Some((path, routes_read(t, order)[path])));
        } else if routes_read(t, order).contains_key(path) {
            let i = choose|i: int|
                0 <= i < rest.len() && #[trigger] path_route(t[rest[i]]) == Some(
                    (path, routes_read(t, rest)[path]),
                );
            assert(rest[i] == order[i]);
            assert(path_route(t[order[i]]) == Some((path, routes_read(t, order)[path])));
        }
        if exists|i: int|
            0 <= i < order.len() && (#[trigger] path_route(t[order[i]])) is Some && path_route(
                t[order[i]],
            )->Some_0.0 == path {
            let i = choose|i: int|
                0 <= i < order.len() && (#[trigger] path_route(t[order[i]])) is Some && path_route(
                    t[order[i]],
                )->Some_0.0 == path;
            if i < last {
                assert(rest[i] == order[i]);
                assert(path_route(t[rest[i]]) is Some);
            }
        }
    }
}

/// Where no two entries give one path, the order in which a table is read makes
/// no difference.
pub proof fn reading_order_does_not_matter(
    t: Map<Seq<char>, Seq<char>>,
    a: Seq<Seq<char>>,
    b: Seq<Seq<char>>,
)
    requires
        reading_order(t, a),
        reading_order(t, b),
        forall|j: Seq<char>, k: Seq<char>|
            #![trigger path_route(t[j]), path_route(t[k])]
            t.contains_key(j) && t.contains_key(k) && path_route(t[j]) is Some && path_route(t[k])
                is Some && path_route(t[j])->Some_0.0 == path_route(t[k])->Some_0.0 ==> j == k,
    ensures
        routes_read(t, a) == routes_read(t, b),
{
    let x = routes_read(t, a);
    let y = routes_read(t, b);
    assert forall|p: Seq<char>| #[trigger] x.contains_key(p) implies y.contains_key(p) && x[p]
        == y[p] by {
        same_route(t, a, b, p);
    }
    assert forall|p: Seq<char>| #[trigger] y.contains_key(p) implies x.contains_key(p) by {
        same_route(t, b, a, p);
    }
    assert(x.dom() =~= y.dom()) by {
        assert forall|p: Seq<char>| x.dom().contains(p) <==> y.dom().contains(p) by {
            assert(x.contains_key(p) <==> y.contains_key(p));
        }
    }
    assert(x =~= y);
}

proof fn same_route(
    t: Map<Seq<char>, Seq<char>>,
    a: Seq<Seq<char>>,
    b: Seq<Seq<char>>,
    p: Seq<char>,
)
    requires
        reading_order(t, a),
        reading_order(t, b),
        routes_read(t, a).contains_key(p),
        forall|j: Seq<char>, k: Seq<char>|
            #![trigger path_route(t[j]), path_route(t[k])]
            t.contains_key(j) && t.contains_key(k) && path_route(t[j]) is Some && path_route(t[k])
                is Some && path_route(t[j])->Some_0.0 == path_route(t[k])->Some_0.0 ==> j == k,
    ensures
        routes_read(t, b).contains_key(p),
        routes_read(t, b)[p] == routes_read(t, a)[p],
{
    routes_come_from_entries(t, a, p);
    routes_come_from_entries(t, b, p);
    let i = choose|i: int|
        0 <= i < a.len() && #[trigger] path_route(t[a[i]]) == Some((p, routes_read(t, a)[p]));
    assert(a.to_set().contains(a[i]));
    assert(b.to_set().contains(a[i]));
    let j = choose|j: int| 0 <= j < b.len() && b[j] == a[i];
    assert(path_route(t[b[j]]) is Some);
    let k = choose|k: int|
        0 <= k < b.len() && #[trigger] path_route(t[b[k]]) == Some((p, routes_read(t, b)[p]));
    assert(b.to_set().contains(b[k]));
    assert(t.contains_key(a[i]) && t.contains_key(b[k]));
}

/// An entry of three parts gives its path the handler that it names last, and one of
/// two parts gives its collection its handler, or its path its scope.
pub proof fn what_entries_say(a: Seq<char>, b: Seq<char>, c: Seq<char>)
    requires
        a.len() > 0,
        b.len() > 0,
        c.len() > 0,
        !a.contains(':'),
        !b.contains(':'),
        !c.contains(':'),
    ensures
        path_route(a + seq![':'] + (b + seq![':'] + c)) == Some((a, c)),
        path_route(a + seq![':'] + b) is None,
        collection_hook(a + seq![':'] + b) == Some((a, b)),
        collection_hook(a) is None,
        route_scope(a + seq![':'] + b) == Some((a, b)),
        route_scope(a) is None,
{
    text::split_of_two(a, b + seq![':'] + c, ':');
    text::split_of_two(b, c, ':');
    text::split_of_two(c, c, ':');
    text::split_of_two(a, b, ':');
    assert(text::split(a + seq![':'] + (b + seq![':'] + c), ':') =~= seq![a, b, c]);
    assert(text::split(a + seq![':'] + b, ':') =~= seq![a, b]);
}

/// The hooks of a collection are called before those of all collections, each list in
/// its order; a collection without hooks of its own has those of all alone.
pub proof fn which_hooks_are_called(
    by_collection: Map<Seq<char>, Seq<Seq<char>>>,
    wildcard: Seq<Seq<char>>,
    collection: Seq<char>,
    own: Seq<Seq<char>>,
)
    ensures
        hooks_for(by_collection.insert(collection, own), wildcard, collection) == own + wildcard,
        !by_collection.contains_key(collection) ==> hooks_for(by_collection, wildcard, collection)
            == wildcard,
{
}

/// A hook of a table is called for the collection of its entry, and only for that; an
/// entry for all collections is one of theirs.
pub proof fn hooks_come_from_entries(
    t: Map<Seq<char>, Seq<char>>,
    order: Seq<Seq<char>>,
    collection: Seq<char>,
    handler: Seq<char>,
)
    ensures
        hooks_read(t, order, collection).contains(handler) <==> exists|i: int|
            0 <= i < order.len() && #[trigger] collection_hook(t[order[i]]) == Some(
                (collection, handler),
            ),
    decreases order.len(),
{
    if order.len() > 0 {
        let head = order.drop_last();
        hooks_come_from_entries(t, head, collection, handler);
        let before = hooks_read(t, head, collection);
        let all = hooks_read(t, order, collection);
        assert(order[order.len() - 1] == order.last());
        assert forall|i: int| 0 <= i < head.len() implies #[trigger] head[i] == order[i] by {}
        if before.contains(handler) {
            let x = choose|x: int| 0 <= x < before.len() && before[x] == handler;
            assert(all[x] == handler);
            let i = choose|i: int|
                0 <= i < head.len() && #[trigger] collection_hook(t[head[i]]) == Some(
                    (collection, handler),
                );
            assert(collection_hook(t[order[i]]) == Some((collection, handler)));
        }
        if collection_hook(t[order.last()]) == Some((collection, handler)) {
            assert(all[all.len() - 1] == handler);
            assert(collection_hook(t[order[order.len() - 1]]) == Some((collection, handler)));
        }
        if all.contains(handler) {
            let x = choose|x: int| 0 <= x < all.len() && all[x] == handler;
            if x < before.len() {
                assert(before[x] == handler);
            }
        }
        if exists|i: int|
            0 <= i < order.len() && #[trigger] collection_hook(t[order[i]]) == Some(
                (collection, handler),
            ) {
            let i = choose|i: int|
                0 <= i < order.len() && #[trigger] collection_hook(t[order[i]]) == Some(
                    (collection, handler),
                );
            if i < head.len() {
                assert(collection_hook(t[head[i]]) == Some((collection, handler)));
            }
        }
    }
}

/// Every scope of a table is that of an entry of it, and every entry that is well
/// formed gives its path a scope.
pub proof fn scopes_come_from_entries(
    t: Map<Seq<char>, Seq<char>>,
    order: Seq<Seq<char>>,
    path: Seq<char>,
)
    ensures
        scopes_read(t, order).contains_key(path) <==> exists|i: int|
            0 <= i < order.len() && (#[trigger] route_scope(t[order[i]])) is Some && route_scope(
                t[order[i]],
            )->Some_0.0 == path,
        scopes_read(t, order).contains_key(path) ==> exists|i: int|
            0 <= i < order.len() && #[trigger] route_scope(t[order[i]]) == Some(
                (path, scopes_read(t, order)[path]),
            ),
    decreases order.len(),
{
    if order.len() > 0 {
        let head = order.drop_last();
        scopes_come_from_entries(t, head, path);
        let n = order.len() - 1;
        assert(order[n] == order.last());
        assert forall|i: int| 0 <= i < head.len() implies #[trigger] head[i] == order[i] by {}
        if scopes_read(t, head).contains_key(path) {
            let i = choose|i: int|
                0 <= i < head.len() && #[trigger] route_scope(t[head[i]]) == Some(
                    (path, scopes_read(t, head)[path]),
                );
            assert(route_scope(t[order[i]]) == Some((path, scopes_read(t, head)[path])));
        }
        if route_scope(t[order.last()]) is Some && route_scope(t[order.last()])->Some_0.0 == path {
            assert(route_scope(t[order[n]]) is Some);
        }
        if exists|i: int|
            0 <= i < order.len() && (#[trigger] route_scope(t[order[i]])) is Some && route_scope(
                t[order[i]],
            )->Some_0.0 == path {
            let i = choose|i: int|
                0 <= i < order.len() && (#[trigger] route_scope(t[order[i]])) is Some
                    && route_scope(t[order[i]])->Some_0.0 == path;
            if i < head.len() {
                assert(route_scope(t[head[i]]) is Some);
            }
        }
    }
}

/// A table of the internals is what they hold under its name, and empty where they hold
/// none.
pub proof fn where_tables_are(
    internals: ItemView,
    name: Seq<char>,
    t: Map<Seq<char>, Seq<char>>,
)
    ensures
        table(internals.with_strstr(name, t), name) == t,
        !internals.strstrs.contains_key(name) ==> table(internals, name) == Map::<
            Seq<char>,
            Seq<char>,
        >::empty(),
{
}

proof fn place_in(t: Map<Seq<char>, Seq<char>>, order: Seq<Seq<char>>, k: Seq<char>) -> (i: int)
    requires
        reading_order(t, order),
        t.contains_key(k),
    ensures
        0 <= i < order.len(),
        order[i] == k,
{
    assert(order.to_set().contains(k));
    let i = choose|i: int| 0 <= i < order.len() && order[i] == k;
    i
}

proof fn key_of(t: Map<Seq<char>, Seq<char>>, order: Seq<Seq<char>>, i: int)
    requires
        reading_order(t, order),
        0 <= i < order.len(),
    ensures
        t.contains_key(order[i]),
{
    assert(order.to_set().contains(order[i]));
}

/// The routes of a table lead where its entries say, from every path that an entry has
/// and from no other, in whatever order the table is read.
pub proof fn where_routes_lead(
    t: Map<Seq<char>, Seq<char>>,
    routes: Map<Seq<char>, Seq<char>>,
    path: Seq<char>,
)
    requires
        routes_of(t, routes),
    ensures
        routes.contains_key(path) <==> exists|k: Seq<char>|
            t.contains_key(k) && (#[trigger] path_route(t[k])) is Some && path_route(
                t[k],
            )->Some_0.0 == path,
        routes.contains_key(path) ==> exists|k: Seq<char>|
            t.contains_key(k) && #[trigger] path_route(t[k]) == Some((path, routes[path])),
{
    let order = choose|order: Seq<Seq<char>>| #[trigger]
        reading_order(t, order) && routes == routes_read(t, order);
    routes_come_from_entries(t, order, path);
    if routes.contains_key(path) {
        let i = choose|i: int|
            0 <= i < order.len() && #[trigger] path_route(t[order[i]]) == Some(
                (path, routes[path]),
            );
        key_of(t, order, i);
        assert(path_route(t[order[i]]) == Some((path, routes[path])));
    }
    if exists|k: Seq<char>|
        t.contains_key(k) && (#[trigger] path_route(t[k])) is Some && path_route(t[k])->Some_0.0
            == path {
        let k = choose|k: Seq<char>|
            t.contains_key(k) && (#[trigger] path_route(t[k])) is Some && path_route(
                t[k],
            )->Some_0.0 == path;
        let i = place_in(t, order, k);
        assert(path_route(t[order[i]]) is Some);
    }
}

/// The scopes of a table are those of its entries, for every path that an entry has and
/// for no other, in whatever order the table is read.
pub proof fn where_scopes_are_declared(
    t: Map<Seq<char>, Seq<char>>,
    scopes: Map<Seq<char>, Seq<char>>,
    path: Seq<char>,
)
    requires
        scopes_of_table(t, scopes),
    ensures
        scopes.contains_key(path) <==> exists|k: Seq<char>|
            t.contains_key(k) && (#[trigger] route_scope(t[k])) is Some && route_scope(
                t[k],
            )->Some_0.0 == path,
        scopes.contains_key(path) ==> exists|k: Seq<char>|
            t.contains_key(k) && #[trigger] route_scope(t[k]) == Some((path, scopes[path])),
{
    let order = choose|order: Seq<Seq<char>>| #[trigger]
        reading_order(t, order) && scopes == scopes_read(t, order);
    scopes_come_from_entries(t, order, path);
    if scopes.contains_key(path) {
        let i = choose|i: int|
            0 <= i < order.len() && #[trigger] route_scope(t[order[i]]) == Some(
                (path, scopes[path]),
            );
        key_of(t, order, i);
        assert(route_scope(t[order[i]]) == Some((path, scopes[path])));
    }
    if exists|k: Seq<char>|
        t.contains_key(k) && (#[trigger] route_scope(t[k])) is Some && route_scope(t[k])->Some_0.0
            == path {
        let k = choose|k: Seq<char>|
            t.contains_key(k) && (#[trigger] route_scope(t[k])) is Some && route_scope(
                t[k],
            )->Some_0.0 == path;
        let i = place_in(t, order, k);
        assert(route_scope(t[order[i]]) is Some);
    }
}

/// A hook is called for a collection where an entry of the table names both, and for all
/// collections where an entry names it with a star. Nothing is kept under the star
/// itself, nor under a collection that no entry names.
pub proof fn whom_hooks_serve(
    t: Map<Seq<char>, Seq<char>>,
    by_collection: Map<Seq<char>, Seq<Seq<char>>>,
    wildcard: Seq<Seq<char>>,
    collection: Seq<char>,
    handler: Seq<char>,
)
    requires
        hooks_of(t, by_collection, wildcard),
    ensures
        wildcard.contains(handler) <==> exists|k: Seq<char>|
            t.contains_key(k) && #[trigger] collection_hook(t[k]) == Some(("*"@, handler)),
        collection != "*"@ ==> (by_collection.contains_key(collection)
            && by_collection[collection].contains(handler) <==> exists|k: Seq<char>|
            t.contains_key(k) && #[trigger] collection_hook(t[k]) == Some((collection, handler))),
        !by_collection.contains_key("*"@),
        by_collection.contains_key(collection) ==> by_collection[collection].len() > 0,
{
    let order = choose|order: Seq<Seq<char>>| #[trigger]
        reading_order(t, order) && hooks_match(t, order, by_collection, wildcard);
    served(t, order, "*"@, handler);
    served(t, order, collection, handler);
    let own = hooks_read(t, order, collection);
    if own.contains(handler) {
        assert(own.len() > 0);
    }
}

proof fn served(
    t: Map<Seq<char>, Seq<char>>,
    order: Seq<Seq<char>>,
    collection: Seq<char>,
    handler: Seq<char>,
)
    requires
        reading_order(t, order),
    ensures
        hooks_read(t, order, collection).contains(handler) <==> exists|k: Seq<char>|
            t.contains_key(k) && #[trigger] collection_hook(t[k]) == Some((collection, handler)),
{
    hooks_come_from_entries(t, order, collection, handler);
    if hooks_read(t, order, collection).contains(handler) {
        let i = choose|i: int|
            0 <= i < order.len() && #[trigger] collection_hook(t[order[i]]) == Some(
                (collection, handler),
            );
        key_of(t, order, i);
        assert(collection_hook(t[order[i]]) == Some((collection, handler)));
    }
    if exists|k: Seq<char>|
        t.contains_key(k) && #[trigger] collection_hook(t[k]) == Some((collection, handler)) {
        let k = choose|k: Seq<char>|
            t.contains_key(k) && #[trigger] collection_hook(t[k]) == Some((collection, handler));
        let i = place_in(t, order, k);
        assert(collection_hook(t[order[i]]) == Some((collection, handler)));
    }
}

/// An entry says nothing where one of the parts that it needs is empty.
pub proof fn which_entries_say_nothing(a: Seq<char>, b: Seq<char>, c: Seq<char>)
    requires
        !a.contains(':'),
        !b.contains(':'),
        !c.contains(':'),
    ensures
        a.len() == 0 || c.len() == 0 ==> path_route(
            a + seq![':'] + (b + seq![':'] + c),
        ) is None,
        a.len() == 0 || b.len() == 0 ==> collection_hook(a + seq![':'] + b) is None,
        a.len() == 0 || b.len() == 0 ==> route_scope(a + seq![':'] + b) is None,
{
    text::split_of_two(a, b + seq![':'] + c, ':');
    text::split_of_two(b, c, ':');
    text::split_of_two(c, c, ':');
    text::split_of_two(a, b, ':');
    assert(text::split(a + seq![':'] + (b + seq![':'] + c), ':') =~= seq![a, b, c]);
    assert(text::split(a + seq![':'] + b, ':') =~= seq![a, b]);
}

} // verus!
