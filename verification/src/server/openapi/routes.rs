//! The routes that plugins add, read out of the deployment's internals.
use crate::collections;
use crate::item::{Item, ItemView};
use crate::json::{Json, JsonView};
use crate::server::openapi::doc;
use crate::server::openapi::paths::{body, empty_response, one, session_optional, typed};
use crate::text;
use crate::text::{before, cat3, same, split_on};
use vstd::prelude::*;

verus! {

/// Which table a plugin route came from.
#[derive(Clone, Copy, PartialEq, Eq, Debug, Structural)]
pub enum RouteKind {
    /// `extra_route`: requires a session.
    Protected,
    /// `extra_unprotected_route`: served to anyone.
    Unprotected,
    /// `extra_rest_route`: takes a raw body; a session is optional.
    Rest,
}

impl RouteKind {
    /// The table that routes of this kind are declared in.
    pub open spec fn table(self) -> Seq<char> {
        match self {
            RouteKind::Protected => "extra_route"@,
            RouteKind::Unprotected => "extra_unprotected_route"@,
            RouteKind::Rest => "extra_rest_route"@,
        }
    }

    /// The table that routes of this kind are declared in.
    pub fn internals_key(&self) -> (r: &'static str)
        ensures
            r@ == self.table(),
    {
        match self {
            RouteKind::Protected => "extra_route",
            RouteKind::Unprotected => "extra_unprotected_route",
            RouteKind::Rest => "extra_rest_route",
        }
    }

    /// The heading that routes of this kind are described under.
    pub open spec fn heading(self) -> Seq<char> {
        match self {
            RouteKind::Protected => "plugin"@,
            RouteKind::Unprotected => "plugin (public)"@,
            RouteKind::Rest => "plugin (rest)"@,
        }
    }

    /// The heading that routes of this kind are described under.
    pub fn tag(&self) -> (r: &'static str)
        ensures
            r@ == self.heading(),
    {
        match self {
            RouteKind::Protected => "plugin",
            RouteKind::Unprotected => "plugin (public)",
            RouteKind::Rest => "plugin (rest)",
        }
    }

    /// The order in which the tables are read.
    pub open spec fn rank(self) -> int {
        match self {
            RouteKind::Protected => 0,
            RouteKind::Unprotected => 1,
            RouteKind::Rest => 2,
        }
    }
}

/// One route that a plugin added.
#[derive(Debug)]
pub struct PluginRoute {
    pub path: String,
    /// `get` or `post`.
    pub method: String,
    /// The plugin hook that the route dispatches to.
    pub handler: String,
    pub kind: RouteKind,
}

/// What a route is.
#[verifier::ext_equal]
pub struct RouteView {
    pub path: Seq<char>,
    pub method: Seq<char>,
    pub handler: Seq<char>,
    pub kind: RouteKind,
}

impl View for PluginRoute {
    type V = RouteView;

    open spec fn view(&self) -> RouteView {
        RouteView {
            path: self.path@,
            method: self.method@,
            handler: self.handler@,
            kind: self.kind,
        }
    }
}

/// Routes as what they are.
pub open spec fn route_views(v: Seq<PluginRoute>) -> Seq<RouteView> {
    Seq::new(v.len(), |i: int| v[i]@)
}

/// The route that an entry `path:method:handler` of a table declares, if it
/// declares one.
pub open spec fn declared(entry: Seq<char>, kind: RouteKind) -> Option<RouteView> {
    let parts = text::split(entry, ':');
    if parts.len() >= 3 && parts[0].len() > 0 && parts[2].len() > 0 && (parts[1] == "get"@
        || parts[1] == "post"@) {
        Some(RouteView { path: parts[0], method: parts[1], handler: parts[2], kind })
    } else {
        None
    }
}

/// The entries of the table for routes of a kind.
pub open spec fn table_of(internals: ItemView, kind: RouteKind) -> Map<Seq<char>, Seq<char>> {
    if internals.strstrs.contains_key(kind.table()) {
        internals.strstrs[kind.table()]
    } else {
        Map::empty()
    }
}

/// Whether an entry of a table declares a route.
pub open spec fn entry_declares(t: Map<Seq<char>, Seq<char>>, k: Seq<char>, r: RouteView) -> bool {
    t.contains_key(k) && declared(t[k], r.kind) == Some(r)
}

/// Whether a deployment's internals declare a route.
pub open spec fn declares(internals: ItemView, r: RouteView) -> bool {
    exists|k: Seq<char>| #[trigger] entry_declares(table_of(internals, r.kind), k, r)
}

/// Whether one route comes before another: by path, then by method.
pub open spec fn route_before(a: RouteView, b: RouteView) -> bool {
    text::precedes(a.path, b.path) || (a.path == b.path && text::precedes(a.method, b.method))
}

/// Whether two routes answer to the same path and method.
pub open spec fn same_place(a: RouteView, b: RouteView) -> bool {
    a.path == b.path && a.method == b.method
}

/// Whether routes are in order; of those in one place, by table.
pub open spec fn routes_in_order(s: Seq<RouteView>) -> bool {
    forall|i: int, j: int|
        #![trigger s[i], s[j]]
        0 <= i < j < s.len() ==> !route_before(s[j], s[i]) && (same_place(s[i], s[j])
            ==> s[i].kind.rank() <= s[j].kind.rank())
}

/// Whether a list holds every declared route once and nothing else, in order.
pub open spec fn lists_routes(internals: ItemView, s: Seq<RouteView>) -> bool {
    &&& forall|i: int| 0 <= i < s.len() ==> declares(internals, #[trigger] s[i])
    &&& forall|r: RouteView| #[trigger] declares(internals, r) ==> s.contains(r)
    &&& s.no_duplicates()
    &&& routes_in_order(s)
}

proof fn route_before_irreflexive(a: RouteView)
    ensures
        !route_before(a, a),
{
    text::precedes_irreflexive(a.path);
    text::precedes_irreflexive(a.method);
}

proof fn route_before_transitive(a: RouteView, b: RouteView, c: RouteView)
    requires
        route_before(a, b),
        route_before(b, c),
    ensures
        route_before(a, c),
{
    if text::precedes(a.path, b.path) && text::precedes(b.path, c.path) {
        text::precedes_transitive(a.path, b.path, c.path);
    }
    if text::precedes(a.method, b.method) && text::precedes(b.method, c.method) {
        text::precedes_transitive(a.method, b.method, c.method);
    }
}

proof fn route_before_total(a: RouteView, b: RouteView)
    ensures
        route_before(a, b) || route_before(b, a) || same_place(a, b),
{
    text::precedes_total(a.path, b.path);
    text::precedes_total(a.method, b.method);
}

fn comes_before(a: &PluginRoute, b: &PluginRoute) -> (r: bool)
    ensures
        r == route_before(a@, b@),
{
    before(a.path.as_str(), b.path.as_str()) || (same(a.path.as_str(), b.path.as_str()) && before(
        a.method.as_str(),
        b.method.as_str(),
    ))
}

fn is_same(a: &PluginRoute, b: &PluginRoute) -> (r: bool)
    ensures
        r == (a@ == b@),
{
    a.kind == b.kind && same(a.path.as_str(), b.path.as_str()) && same(
        a.method.as_str(),
        b.method.as_str(),
    ) && same(a.handler.as_str(), b.handler.as_str())
}

fn read_entry(entry: &str, kind: RouteKind) -> (r: Option<PluginRoute>)
    ensures
        match r {
            Some(p) => declared(entry@, kind) == Some(p@),
            None => declared(entry@, kind) is None,
        },
{
    let parts = split_on(entry, ':');
    let ghost views = text::views(parts@);
    if parts.len() < 3 {
        return None;
    }
    proof {
        assert(views[0] == parts@[0]@ && views[1] == parts@[1]@ && views[2] == parts@[2]@);
    }
    if parts[0].as_str().is_empty() || parts[2].as_str().is_empty() {
        return None;
    }
    if !same(parts[1].as_str(), "get") && !same(parts[1].as_str(), "post") {
        return None;
    }
    Some(
        PluginRoute {
            path: parts[0].clone(),
            method: parts[1].clone(),
            handler: parts[2].clone(),
            kind,
        },
    )
}

fn holds(out: &Vec<PluginRoute>, route: &PluginRoute) -> (r: bool)
    ensures
        r == route_views(out@).contains(route@),
{
    let mut i: usize = 0;
    while i < out.len()
        invariant
            i <= out.len(),
            forall|j: int| 0 <= j < i ==> (#[trigger] out@[j])@ != route@,
        decreases out.len() - i,
    {
        if is_same(&out[i], route) {
            proof {
                assert(route_views(out@)[i as int] == route@);
            }
            return true;
        }
        i = i + 1;
    }
    proof {
        if route_views(out@).contains(route@) {
            let j = choose|j: int| 0 <= j < out@.len() && route_views(out@)[j] == route@;
            assert(out@[j]@ == route@);
        }
    }
    false
}

/// Puts a route in its place, unless it is there.
fn place(out: &mut Vec<PluginRoute>, route: PluginRoute)
    requires
        routes_in_order(route_views(old(out)@)),
        route_views(old(out)@).no_duplicates(),
        forall|i: int| 0 <= i < old(out)@.len() ==> (#[trigger] old(out)@[i]).kind.rank()
            <= route.kind.rank(),
    ensures
        routes_in_order(route_views(final(out)@)),
        route_views(final(out)@).no_duplicates(),
        forall|r: RouteView|
            route_views(final(out)@).contains(r) <==> route_views(old(out)@).contains(r) || r
                == route@,
{
    if holds(out, &route) {
        return;
    }
    let mut p: usize = 0;
    while p < out.len() && !comes_before(&route, &out[p])
        invariant
            p <= out.len(),
            forall|i: int| 0 <= i < p ==> !route_before(route@, (#[trigger] out@[i])@),
        decreases out.len() - p,
    {
        p = p + 1;
    }
    let ghost was = route_views(out@);
    let ghost new = route@;
    out.insert(p, route);
    proof {
        let now = route_views(out@);
        assert(now =~= was.insert(p as int, new));
        assert forall|j: int| p <= j < was.len() implies !route_before(#[trigger] was[j], new)
            && !same_place(was[j], new) by {
            let at = was[p as int];
            assert(route_before(new, at));
            if route_before(was[j], new) {
                route_before_transitive(was[j], new, at);
                if j == p {
                    route_before_irreflexive(at);
                }
            }
            if same_place(was[j], new) {
                assert(route_before(was[j], at));
                if j == p {
                    route_before_irreflexive(at);
                }
            }
        }
        assert forall|i: int, j: int| #![trigger now[i], now[j]] 0 <= i < j < now.len() implies !route_before(
            now[j],
            now[i],
        ) && (same_place(now[i], now[j]) ==> now[i].kind.rank() <= now[j].kind.rank()) by {
            let a = if i < p { i } else { i - 1 };
            let b = if j < p { j } else { j - 1 };
            if i != p {
                assert(now[i] == was[a]);
            }
            if j != p {
                assert(now[j] == was[b]);
            }
            if i != p && j != p {
                assert(0 <= a < b < was.len());
            }
        }
        assert forall|r: RouteView| now.contains(r) <==> was.contains(r) || r == new by {
            if was.contains(r) {
                let i = choose|i: int| 0 <= i < was.len() && was[i] == r;
                assert(now[if i < p { i } else { i + 1 }] == r);
            }
            if r == new {
                assert(now[p as int] == r);
            }
            if now.contains(r) && r != new {
                let i = choose|i: int| 0 <= i < now.len() && now[i] == r;
                assert(was[if i < p { i } else { i - 1 }] == r);
            }
        }
        assert(now.no_duplicates()) by {
            assert forall|i: int, j: int| 0 <= i < now.len() && 0 <= j < now.len() && i != j implies now[i]
                != now[j] by {
                let a = if i < p { i } else { i - 1 };
                let b = if j < p { j } else { j - 1 };
                if i != p {
                    assert(now[i] == was[a]);
                    assert(was.contains(was[a]));
                }
                if j != p {
                    assert(now[j] == was[b]);
                    assert(was.contains(was[b]));
                }
            }
        }
    }
}

/// Whether a list holds what the first tables declare.
spec fn read_below(internals: ItemView, s: Seq<RouteView>, n: int) -> bool {
    forall|r: RouteView|
        #![trigger s.contains(r)]
        #![trigger declares(internals, r)]
        s.contains(r) <==> r.kind.rank() < n && declares(internals, r)
}

/// Whether a list holds a route just where the tables before one declare it, or
/// the first entries of that one do.
spec fn read_so_far(
    internals: ItemView,
    s: Seq<RouteView>,
    kind: RouteKind,
    entries: Seq<(Seq<char>, Seq<char>)>,
    m: int,
    r: RouteView,
) -> bool {
    s.contains(r) <==> {
        ||| r.kind.rank() < kind.rank() && declares(internals, r)
        ||| r.kind == kind && exists|i: int|
            0 <= i < m && declared((#[trigger] entries[i]).1, kind) == Some(r)
    }
}

fn read_table(internals: &Item, kind: RouteKind, out: &mut Vec<PluginRoute>)
    requires
        routes_in_order(route_views(old(out)@)),
        route_views(old(out)@).no_duplicates(),
        read_below(internals@, route_views(old(out)@), kind.rank()),
    ensures
        routes_in_order(route_views(final(out)@)),
        route_views(final(out)@).no_duplicates(),
        read_below(internals@, route_views(final(out)@), kind.rank() + 1),
{
    let table = internals.safe_strstr(kind.internals_key());
    let ghost entries = table.pairs();
    let n: usize = table.len();
    let mut i: usize = 0;
    proof {
        let s = route_views(out@);
        assert forall|r: RouteView| #[trigger] read_so_far(internals@, s, kind, entries, 0, r) by {
            assert(s.contains(r) <==> r.kind.rank() < kind.rank() && declares(internals@, r));
        }
    }
    while i < n
        invariant
            i <= n,
            n == entries.len(),
            table.pairs() == entries,
            routes_in_order(route_views(out@)),
            route_views(out@).no_duplicates(),
            forall|r: RouteView| #[trigger] read_so_far(
                internals@,
                route_views(out@),
                kind,
                entries,
                i as int,
                r,
            ),
        decreases n - i,
    {
        let ghost was = route_views(out@);
        proof {
            assert forall|x: int| 0 <= x < out@.len() implies (#[trigger] out@[x]).kind.rank()
                <= kind.rank() by {
                assert(read_so_far(internals@, was, kind, entries, i as int, out@[x]@));
                assert(was[x] == out@[x]@);
            }
        }
        match read_entry(table.value(i).as_str(), kind) {
            Some(route) => {
                place(out, route);
            },
            None => {},
        }
        proof {
            let now = route_views(out@);
            assert forall|r: RouteView| #[trigger] read_so_far(
                internals@,
                now,
                kind,
                entries,
                i + 1,
                r,
            ) by {
                assert(read_so_far(internals@, was, kind, entries, i as int, r));
                if exists|x: int| 0 <= x < i && declared((#[trigger] entries[x]).1, kind) == Some(r) {
                    let x = choose|x: int|
                        0 <= x < i && declared((#[trigger] entries[x]).1, kind) == Some(r);
                    assert(0 <= x < i + 1 && declared(entries[x].1, kind) == Some(r));
                }
                assert(declared(entries[i as int].1, kind) == Some(r) ==> (exists|x: int|
                    0 <= x < i + 1 && declared((#[trigger] entries[x]).1, kind) == Some(r)));
            }
        }
        i = i + 1;
    }
    proof {
        let now = route_views(out@);
        assert(table@ == table_of(internals@, kind));
        assert forall|r: RouteView|
            #![trigger now.contains(r)]
            #![trigger declares(internals@, r)]
            now.contains(r) <==> r.kind.rank() < kind.rank() + 1 && declares(internals@, r) by {
            assert(read_so_far(internals@, now, kind, entries, n as int, r));
            if r.kind == kind && declares(internals@, r) {
                let k = choose|k: Seq<char>| #[trigger]
                    entry_declares(table_of(internals@, r.kind), k, r);
                let x = collections::map_of_from(entries, k);
                assert(declared(entries[x].1, kind) == Some(r));
            }
            if r.kind == kind && now.contains(r) {
                let x = choose|x: int|
                    0 <= x < n && declared((#[trigger] entries[x]).1, kind) == Some(r);
                collections::map_of_has(entries, x);
                assert(entry_declares(table_of(internals@, r.kind), entries[x].0, r));
            }
        }
    }
}

/// Reads the plugin routes out of the deployment's internals. What registers
/// no route is not listed either. Two readings of the same internals agree.
pub fn plugin_routes(internals: &Item) -> (out: Vec<PluginRoute>)
    ensures
        lists_routes(internals@, route_views(out@)),
{
    let mut out: Vec<PluginRoute> = Vec::new();
    proof {
        assert(route_views(out@) =~= Seq::<RouteView>::empty());
    }
    read_table(internals, RouteKind::Protected, &mut out);
    read_table(internals, RouteKind::Unprotected, &mut out);
    read_table(internals, RouteKind::Rest, &mut out);
    proof {
        let s = route_views(out@);
        assert forall|i: int| 0 <= i < s.len() implies declares(internals@, #[trigger] s[i]) by {
            assert(s.contains(s[i]));
        }
    }
    out
}

proof fn sorted_same(a: Seq<RouteView>, b: Seq<RouteView>)
    requires
        forall|i: int, j: int|
            #![trigger a[i], a[j]]
            0 <= i < j < a.len() ==> route_before(a[i], a[j]),
        forall|i: int, j: int|
            #![trigger b[i], b[j]]
            0 <= i < j < b.len() ==> route_before(b[i], b[j]),
        forall|r: RouteView| a.contains(r) <==> b.contains(r),
    ensures
        a == b,
    decreases a.len(),
{
    if a.len() == 0 {
        if b.len() > 0 {
            assert(b.contains(b[0]));
            assert(a.contains(b[0]));
        }
        assert(a =~= b);
    } else {
        assert(a.contains(a.last()));
        assert(b.contains(a.last()));
        let j = choose|j: int| 0 <= j < b.len() && b[j] == a.last();
        assert(b.contains(b.last()));
        assert(a.contains(b.last()));
        let i = choose|i: int| 0 <= i < a.len() && a[i] == b.last();
        if j < b.len() - 1 {
            assert(route_before(b[j], b[b.len() - 1]));
            if i < a.len() - 1 {
                assert(route_before(a[i], a[a.len() - 1]));
                route_before_transitive(a[i], a.last(), b.last());
                route_before_irreflexive(a[i]);
            } else {
                route_before_irreflexive(a.last());
            }
        }
        assert(a.last() == b.last());
        let x = a.drop_last();
        let y = b.drop_last();
        assert forall|r: RouteView| x.contains(r) <==> y.contains(r) by {
            if x.contains(r) {
                let p = choose|p: int| 0 <= p < x.len() && x[p] == r;
                assert(a[p] == r);
                assert(a.contains(r));
                assert(route_before(a[p], a[a.len() - 1]));
                let q = choose|q: int| 0 <= q < b.len() && b[q] == r;
                if q == b.len() - 1 {
                    route_before_irreflexive(r);
                }
                assert(y[q] == r);
            }
            if y.contains(r) {
                let p = choose|p: int| 0 <= p < y.len() && y[p] == r;
                assert(b[p] == r);
                assert(b.contains(r));
                assert(route_before(b[p], b[b.len() - 1]));
                let q = choose|q: int| 0 <= q < a.len() && a[q] == r;
                if q == a.len() - 1 {
                    route_before_irreflexive(r);
                }
                assert(x[q] == r);
            }
        }
        sorted_same(x, y);
        assert(a =~= x.push(a.last()));
        assert(b =~= y.push(b.last()));
    }
}

/// Where no two declared routes share a path and a method, there is one list of
/// them: two fetches of the document do not disagree.
pub proof fn route_order_is_settled(internals: ItemView, a: Seq<RouteView>, b: Seq<RouteView>)
    requires
        lists_routes(internals, a),
        lists_routes(internals, b),
        forall|r: RouteView, q: RouteView|
            #![trigger declares(internals, r), declares(internals, q)]
            declares(internals, r) && declares(internals, q) && same_place(r, q) ==> r == q,
    ensures
        a == b,
{
    assert forall|i: int, j: int| #![trigger a[i], a[j]] 0 <= i < j < a.len() implies route_before(
        a[i],
        a[j],
    ) by {
        route_before_total(a[i], a[j]);
        assert(declares(internals, a[i]) && declares(internals, a[j]));
    }
    assert forall|i: int, j: int| #![trigger b[i], b[j]] 0 <= i < j < b.len() implies route_before(
        b[i],
        b[j],
    ) by {
        route_before_total(b[i], b[j]);
        assert(declares(internals, b[i]) && declares(internals, b[j]));
    }
    assert forall|r: RouteView| a.contains(r) <==> b.contains(r) by {
        if a.contains(r) {
            let i = choose|i: int| 0 <= i < a.len() && a[i] == r;
            assert(declares(internals, a[i]));
        }
        if b.contains(r) {
            let i = choose|i: int| 0 <= i < b.len() && b[i] == r;
            assert(declares(internals, b[i]));
        }
    }
    sorted_same(a, b);
}

// ---------------------------------------------------------------------------
// Describing a route
// ---------------------------------------------------------------------------

/// What is said of how a route of a kind is served.
pub open spec fn kind_description(kind: RouteKind) -> Seq<char> {
    match kind {
        RouteKind::Protected =>
            "Registered from `internals.js` as `extra_route`. Requires a session."@,
        RouteKind::Unprotected =>
            "Registered from `internals.js` as `extra_unprotected_route`. Served without a \
             session; the hook is told whether one was present."@,
        RouteKind::Rest =>
            "Registered from `internals.js` as `extra_rest_route`. The body is handed to the \
             hook verbatim, as UTF-8 text, under `--max-payload` and `--body-timeout`. The \
             hook may also open a session for the caller."@,
    }
}

/// The answers that a route of a kind can give.
pub open spec fn kind_responses(kind: RouteKind) -> JsonView {
    let always = JsonView::object()
        .with("200"@, doc::empty_response("Whatever the plugin hook returns."@))
        .with("404"@, doc::empty_response("The path is registered but no hook answers to it."@));
    match kind {
        RouteKind::Protected => always.with("401"@, doc::empty_response("No session."@)),
        RouteKind::Rest => always
            .with(
                "400"@,
                doc::empty_response(
                    "Body malformed, not valid UTF-8, or not read within the deadline."@,
                ),
            )
            .with("413"@, doc::empty_response("Body over `--max-payload`."@)),
        RouteKind::Unprotected => always,
    }
}

/// What can be said about a route whose handler lives in a plugin.
pub open spec fn operation(r: RouteView) -> JsonView {
    let op = JsonView::object()
        .with("tags"@, doc::one(r.kind.heading()))
        .with_text("summary"@, "Plugin route → `"@ + r.handler + "`"@)
        .with("responses"@, kind_responses(r.kind))
        .with_text("description"@, kind_description(r.kind));
    let secured = if r.kind != RouteKind::Protected {
        op.with("security"@, doc::session_optional())
    } else {
        op
    };
    if r.method == "post"@ {
        secured.with(
            "requestBody"@,
            if r.kind == RouteKind::Rest {
                doc::body(false, "*/*"@, doc::typed("string"@))
            } else {
                doc::body(false, "multipart/form-data"@, doc::typed("object"@))
            },
        )
    } else {
        secured
    }
}

/// What can be said about a route whose handler lives in a plugin.
pub fn plugin_operation(route: &PluginRoute) -> (r: Json)
    ensures
        r@ == operation(route@),
{
    let always = Json::object()
        .with("200", empty_response("Whatever the plugin hook returns."))
        .with("404", empty_response("The path is registered but no hook answers to it."));
    let responses = match route.kind {
        RouteKind::Protected => always.with("401", empty_response("No session.")),
        RouteKind::Rest => always
            .with(
                "400",
                empty_response("Body malformed, not valid UTF-8, or not read within the deadline."),
            )
            .with("413", empty_response("Body over `--max-payload`.")),
        RouteKind::Unprotected => always,
    };
    let description = match route.kind {
        RouteKind::Protected =>
            "Registered from `internals.js` as `extra_route`. Requires a session.",
        RouteKind::Unprotected =>
            "Registered from `internals.js` as `extra_unprotected_route`. Served without a \
             session; the hook is told whether one was present.",
        RouteKind::Rest =>
            "Registered from `internals.js` as `extra_rest_route`. The body is handed to the \
             hook verbatim, as UTF-8 text, under `--max-payload` and `--body-timeout`. The \
             hook may also open a session for the caller.",
    };
    let op = Json::object()
        .with("tags", one(route.kind.tag()))
        .with_text("summary", cat3("Plugin route → `", route.handler.as_str(), "`").as_str())
        .with("responses", responses)
        .with_text("description", description);
    let secured = if route.kind != RouteKind::Protected {
        op.with("security", session_optional())
    } else {
        op
    };
    if same(route.method.as_str(), "post") {
        let taken = if route.kind == RouteKind::Rest {
            body(false, "*/*", typed("string"))
        } else {
            body(false, "multipart/form-data", typed("object"))
        };
        secured.with("requestBody", taken)
    } else {
        secured
    }
}

} // verus!
