//! Assembling the description of the API, and who may read it.
use crate::item::{Item, ItemView};
use crate::json;
use crate::json::{Json, JsonView};
use crate::server::openapi::doc;
use crate::server::openapi::paths::{core_paths, one, session_required};
use crate::server::openapi::render;
use crate::server::openapi::render::render_html;
use crate::server::openapi::routes;
use crate::server::openapi::routes::{plugin_operation, plugin_routes, PluginRoute, RouteView};
use crate::server::openapi::schemas::schemas;
use crate::server::secret;
use crate::server::secret::ensure_admin;
use crate::text;
use crate::text::{cat, cat3, chars_of, decimal_string, owned, same, split_on};
use vstd::prelude::*;

verus! {

/// The version of this library, which the document carries.
pub const VERSION: &'static str = "0.1.0";

// ---------------------------------------------------------------------------
// Names of operations
// ---------------------------------------------------------------------------

/// A character as it stands in a name: itself where it is an ASCII letter or
/// digit, an underscore otherwise.
pub open spec fn name_char(c: char) -> char {
    if ('0' <= c && c <= '9') || ('A' <= c && c <= 'Z') || ('a' <= c && c <= 'z') {
        c
    } else {
        '_'
    }
}

/// The segments of a path that are not empty, each behind an underscore.
pub open spec fn normalized(segments: Seq<Seq<char>>) -> Seq<char>
    decreases segments.len(),
{
    if segments.len() == 0 {
        Seq::empty()
    } else if segments.last().len() == 0 {
        normalized(segments.drop_last())
    } else {
        normalized(segments.drop_last()).push('_') + Seq::new(
            segments.last().len(),
            |i: int| name_char(segments.last()[i]),
        )
    }
}

/// A path as part of a name.
pub fn normalize_path(path: &str) -> (r: String)
    ensures
        r@ == normalized(text::split(path@, '/')),
{
    let segments = split_on(path, '/');
    let ghost all = text::views(segments@);
    let mut out = String::new();
    let mut i: usize = 0;
    proof {
        assert(all.take(0) =~= Seq::<Seq<char>>::empty());
        assert(out@ =~= normalized(all.take(0)));
    }
    while i < segments.len()
        invariant
            i <= segments.len(),
            all == text::views(segments@),
            out@ == normalized(all.take(i as int)),
        decreases segments.len() - i,
    {
        let cs = chars_of(segments[i].as_str());
        proof {
            assert(all.take(i + 1).drop_last() =~= all.take(i as int));
            assert(all.take(i + 1).last() == cs@);
        }
        if cs.len() > 0 {
            let ghost had = out@;
            out.push('_');
            let mut j: usize = 0;
            while j < cs.len()
                invariant
                    j <= cs.len(),
                    out@ == had.push('_') + Seq::new(j as nat, |x: int| name_char(cs@[x])),
                decreases cs.len() - j,
            {
                let c = cs[j];
                let ghost sofar = out@;
                if (c >= '0' && c <= '9') || (c >= 'A' && c <= 'Z') || (c >= 'a' && c <= 'z') {
                    out.push(c);
                } else {
                    out.push('_');
                }
                proof {
                    assert(out@ =~= had.push('_') + Seq::new(
                        (j + 1) as nat,
                        |x: int| name_char(cs@[x]),
                    ));
                }
                j = j + 1;
            }
        }
        i = i + 1;
    }
    proof {
        assert(all.take(segments@.len() as int) =~= all);
    }
    out
}

/// The names that an operation may get, in the order they are tried.
pub open spec fn candidate(base: Seq<char>, n: nat) -> Seq<char> {
    if n <= 1 {
        base
    } else {
        base + "_"@ + text::decimal(n)
    }
}

/// The first candidate from the `n`th on that is not taken. One of `left + 1`
/// candidates is free where no more than `left` names are taken.
pub open spec fn free_from(base: Seq<char>, taken: Seq<Seq<char>>, n: nat, left: nat) -> Seq<char>
    decreases left,
{
    if left == 0 || n >= u64::MAX || !taken.contains(candidate(base, n)) {
        candidate(base, n)
    } else {
        free_from(base, taken, n + 1, (left - 1) as nat)
    }
}

/// The name that an operation gets.
pub open spec fn free_name(base: Seq<char>, taken: Seq<Seq<char>>) -> Seq<char> {
    free_from(base, taken, 1, taken.len())
}

fn is_taken(taken: &Vec<String>, id: &str) -> (r: bool)
    ensures
        r == text::views(taken@).contains(id@),
{
    let mut i: usize = 0;
    while i < taken.len()
        invariant
            i <= taken.len(),
            forall|j: int| 0 <= j < i ==> (#[trigger] taken@[j])@ != id@,
        decreases taken.len() - i,
    {
        if same(taken[i].as_str(), id) {
            proof {
                assert(text::views(taken@)[i as int] == id@);
            }
            return true;
        }
        i = i + 1;
    }
    proof {
        if text::views(taken@).contains(id@) {
            let j = choose|j: int| 0 <= j < taken@.len() && text::views(taken@)[j] == id@;
            assert(taken@[j]@ == id@);
        }
    }
    false
}

fn name_for(base: &str, taken: &Vec<String>) -> (r: String)
    ensures
        r@ == free_name(base@, text::views(taken@)),
{
    let mut id = owned(base);
    let mut n: u64 = 1;
    let mut left: usize = taken.len();
    while left > 0 && n < u64::MAX && is_taken(taken, id.as_str())
        invariant
            n >= 1,
            id@ == candidate(base@, n as nat),
            free_from(base@, text::views(taken@), n as nat, left as nat) == free_name(
                base@,
                text::views(taken@),
            ),
        decreases left,
    {
        n = n + 1;
        left = left - 1;
        id = cat3(base, "_", decimal_string(n).as_str());
    }
    id
}

/// The operations of a path with their names, and the names taken by then.
pub open spec fn methods_named(
    path: Seq<char>,
    ms: Seq<(Seq<char>, JsonView)>,
    taken: Seq<Seq<char>>,
) -> (Seq<(Seq<char>, JsonView)>, Seq<Seq<char>>)
    decreases ms.len(),
{
    if ms.len() == 0 {
        (Seq::empty(), taken)
    } else {
        let (done, held) = methods_named(path, ms.drop_last(), taken);
        let id = free_name(ms.last().0 + normalized(text::split(path, '/')), held);
        (
            done.push((ms.last().0, ms.last().1.with_text("operationId"@, id))),
            held.push(id),
        )
    }
}

/// The paths with their operations named, and the names taken by then.
pub open spec fn paths_named(ps: Seq<(Seq<char>, JsonView)>) -> (
    Seq<(Seq<char>, JsonView)>,
    Seq<Seq<char>>,
)
    decreases ps.len(),
{
    if ps.len() == 0 {
        (Seq::empty(), Seq::empty())
    } else {
        let (done, held) = paths_named(ps.drop_last());
        match ps.last().1 {
            JsonView::Object(ms) => {
                let (named, after) = methods_named(ps.last().0, ms, held);
                (done.push((ps.last().0, JsonView::Object(named))), after)
            },
            _ => (done.push(ps.last()), held),
        }
    }
}

/// The paths with every operation named.
pub open spec fn named(paths: JsonView) -> JsonView {
    match paths {
        JsonView::Object(ps) => JsonView::Object(paths_named(ps).0),
        _ => paths,
    }
}

fn name_methods(path: &str, ms: Vec<(String, Json)>, taken: &mut Vec<String>) -> (r: Vec<
    (String, Json),
>)
    ensures
        (json::members(r@), text::views(final(taken)@)) == methods_named(
            path@,
            json::members(ms@),
            text::views(old(taken)@),
        ),
{
    let ghost all = json::members(ms@);
    let ghost first = text::views(taken@);
    let ghost held = ms@;
    let mut rest = ms;
    let mut out: Vec<(String, Json)> = Vec::new();
    let suffix = normalize_path(path);
    let ghost mut i: int = 0;
    proof {
        assert(held.skip(0) =~= held);
        assert(all.take(0) =~= Seq::<(Seq<char>, JsonView)>::empty());
        assert(json::members(out@) =~= Seq::<(Seq<char>, JsonView)>::empty());
    }
    while rest.len() > 0
        invariant
            0 <= i <= held.len(),
            rest@ == held.skip(i),
            all == json::members(held),
            suffix@ == normalized(text::split(path@, '/')),
            (json::members(out@), text::views(taken@)) == methods_named(path@, all.take(i), first),
        decreases rest.len(),
    {
        let ghost had = json::members(out@);
        let ghost took = text::views(taken@);
        let (method, op) = rest.remove(0);
        proof {
            assert(held.skip(i)[0] == held[i]);
            assert(rest@ =~= held.skip(i + 1));
            assert(all.take(i + 1).drop_last() =~= all.take(i));
            assert(all.take(i + 1).last() == (method@, op@));
        }
        let id = name_for(cat(method.as_str(), suffix.as_str()).as_str(), taken);
        let op = op.with_text("operationId", id.as_str());
        let ghost entry = (method@, op@);
        let ghost text_id = id@;
        taken.push(id);
        out.push((method, op));
        proof {
            assert(json::members(out@) =~= had.push(entry));
            assert(text::views(taken@) =~= took.push(text_id));
            i = i + 1;
        }
    }
    proof {
        assert(all.take(i) =~= all);
    }
    out
}

/// Gives every operation a name. It is made of the verb and the path; where
/// two would be the same, the later gets a number.
pub fn assign_operation_ids(paths: Json) -> (r: Json)
    ensures
        r@ == named(paths@),
{
    match paths {
        Json::Object(ps) => {
            proof {
                json::object_tree(ps);
            }
            let ghost all = json::members(ps@);
            let ghost held = ps@;
            let mut rest = ps;
            let mut out: Vec<(String, Json)> = Vec::new();
            let mut taken: Vec<String> = Vec::new();
            let ghost mut i: int = 0;
            proof {
                assert(held.skip(0) =~= held);
                assert(all.take(0) =~= Seq::<(Seq<char>, JsonView)>::empty());
                assert(json::members(out@) =~= Seq::<(Seq<char>, JsonView)>::empty());
                assert(text::views(taken@) =~= Seq::<Seq<char>>::empty());
            }
            while rest.len() > 0
                invariant
                    0 <= i <= held.len(),
                    rest@ == held.skip(i),
                    all == json::members(held),
                    (json::members(out@), text::views(taken@)) == paths_named(all.take(i)),
                decreases rest.len(),
            {
                let ghost had = json::members(out@);
                let (path, methods) = rest.remove(0);
                proof {
                    assert(held.skip(i)[0] == held[i]);
                    assert(rest@ =~= held.skip(i + 1));
                    assert(all.take(i + 1).drop_last() =~= all.take(i));
                    assert(all.take(i + 1).last() == (path@, methods@));
                }
                let given = match methods {
                    Json::Object(ms) => {
                        proof {
                            json::object_tree(ms);
                        }
                        let done = name_methods(path.as_str(), ms, &mut taken);
                        proof {
                            json::object_tree(done);
                        }
                        Json::Object(done)
                    },
                    other => other,
                };
                let ghost entry = (path@, given@);
                out.push((path, given));
                proof {
                    assert(json::members(out@) =~= had.push(entry));
                    i = i + 1;
                }
            }
            proof {
                assert(all.take(i) =~= all);
                json::object_tree(out);
            }
            Json::Object(out)
        },
        other => other,
    }
}

// ---------------------------------------------------------------------------
// The document
// ---------------------------------------------------------------------------

/// The paths with one route described among them. An operation that is there
/// already stays.
pub open spec fn with_route(paths: JsonView, r: RouteView) -> JsonView {
    let entry = match paths.get(r.path) {
        Some(e) => e,
        None => JsonView::object(),
    };
    if entry.get(r.method) is Some {
        paths
    } else {
        paths.with(r.path, entry.with(r.method, routes::operation(r)))
    }
}

/// The paths with routes described among them, each in turn.
pub open spec fn with_routes(paths: JsonView, rs: Seq<RouteView>) -> JsonView
    decreases rs.len(),
{
    if rs.len() == 0 {
        paths
    } else {
        with_route(with_routes(paths, rs.drop_last()), rs.last())
    }
}

/// What a section of the document is about.
pub open spec fn tag(name: Seq<char>, description: Seq<char>) -> JsonView {
    JsonView::object().with_text("name"@, name).with_text("description"@, description)
}

/// The sections of the document.
pub open spec fn tags() -> JsonView {
    JsonView::array()
        .and(tag("auth"@, "Sessions, registration and one-time codes."@))
        .and(tag("items"@, "The generic collection store."@))
        .and(tag("settings"@, "Deployment settings. Admin only."@))
        .and(tag("secrets"@, "Encrypted secret store. Admin only."@))
        .and(tag("system"@, "Operational endpoints. Admin only."@))
        .and(tag("meta"@, "This document."@))
        .and(tag("plugin"@, "Plugin routes requiring a session."@))
        .and(tag("plugin (public)"@, "Plugin routes served without a session."@))
        .and(tag("plugin (rest)"@, "Plugin routes taking a raw request body."@))
}

/// What the document says of itself.
pub open spec fn info() -> JsonView {
    JsonView::object()
        .with_text("title"@, "Isabelle core API"@)
        .with_text("version"@, VERSION@)
        .with_text(
            "description"@,
            "Generated at request time from this running deployment: core's own \
             endpoints plus every plugin route declared in `internals.js`. \
             Authentication is a session cookie (`id`) obtained from `POST /login`; \
             it is `SameSite=Lax`, so the API and the UI have to be same-site."@,
        )
        .with(
            "license"@,
            JsonView::object().with_text("name"@, "MIT"@).with_text("identifier"@, "MIT"@),
        )
}

/// Where the API is served.
pub open spec fn servers(server_url: Seq<char>) -> JsonView {
    JsonView::array().and(
        JsonView::object().with_text(
            "url"@,
            if server_url.len() == 0 {
                "/"@
            } else {
                server_url
            },
        ),
    )
}

/// The ways to authenticate.
pub open spec fn security_schemes() -> JsonView {
    JsonView::object().with(
        "sessionCookie"@,
        JsonView::object()
            .with_text("type"@, "apiKey"@)
            .with_text("in"@, "cookie"@)
            .with_text("name"@, "id"@)
            .with_text(
                "description"@,
                "Session cookie issued by `POST /login`. Signed and encrypted; \
                 invalidated by `POST /logout`, by a password or role change, and \
                 by deleting the account."@,
            ),
    )
}

/// All paths of the document, named.
pub open spec fn all_paths(
    collections: Seq<Seq<char>>,
    rs: Seq<RouteView>,
    admin_only: bool,
) -> JsonView {
    named(with_routes(doc::core_paths(collections, admin_only), rs))
}

/// The whole document.
pub open spec fn document(
    server_url: Seq<char>,
    collections: Seq<Seq<char>>,
    rs: Seq<RouteView>,
    admin_only: bool,
) -> JsonView {
    JsonView::object()
        .with_text("openapi"@, "3.1.0"@)
        .with("info"@, info())
        .with("servers"@, servers(server_url))
        .with("security"@, JsonView::array().and(doc::session_required()))
        .with("tags"@, tags())
        .with("paths"@, all_paths(collections, rs, admin_only))
        .with(
            "components"@,
            JsonView::object()
                .with("securitySchemes"@, security_schemes())
                .with("schemas"@, doc::schemas()),
        )
}

fn tag_of(name: &str, description: &str) -> (r: Json)
    ensures
        r@ == tag(name@, description@),
{
    Json::object().with_text("name", name).with_text("description", description)
}

fn build_tags() -> (r: Json)
    ensures
        r@ == tags(),
{
    Json::array()
        .and(tag_of("auth", "Sessions, registration and one-time codes."))
        .and(tag_of("items", "The generic collection store."))
        .and(tag_of("settings", "Deployment settings. Admin only."))
        .and(tag_of("secrets", "Encrypted secret store. Admin only."))
        .and(tag_of("system", "Operational endpoints. Admin only."))
        .and(tag_of("meta", "This document."))
        .and(tag_of("plugin", "Plugin routes requiring a session."))
        .and(tag_of("plugin (public)", "Plugin routes served without a session."))
        .and(tag_of("plugin (rest)", "Plugin routes taking a raw request body."))
}

fn build_info() -> (r: Json)
    ensures
        r@ == info(),
{
    Json::object()
        .with_text("title", "Isabelle core API")
        .with_text("version", VERSION)
        .with_text(
            "description",
            "Generated at request time from this running deployment: core's own \
             endpoints plus every plugin route declared in `internals.js`. \
             Authentication is a session cookie (`id`) obtained from `POST /login`; \
             it is `SameSite=Lax`, so the API and the UI have to be same-site.",
        )
        .with("license", Json::object().with_text("name", "MIT").with_text("identifier", "MIT"))
}

fn build_security_schemes() -> (r: Json)
    ensures
        r@ == security_schemes(),
{
    Json::object().with(
        "sessionCookie",
        Json::object()
            .with_text("type", "apiKey")
            .with_text("in", "cookie")
            .with_text("name", "id")
            .with_text(
                "description",
                "Session cookie issued by `POST /login`. Signed and encrypted; \
                 invalidated by `POST /logout`, by a password or role change, and \
                 by deleting the account.",
            ),
    )
}

fn build_paths(collections: &[String], rs: &[PluginRoute], admin_only: bool) -> (r: Json)
    ensures
        r@ == all_paths(text::views(collections@), routes::route_views(rs@), admin_only),
{
    let mut paths = core_paths(collections, admin_only);
    let ghost core = paths@;
    let ghost all = routes::route_views(rs@);
    let mut i: usize = 0;
    proof {
        assert(all.take(0) =~= Seq::<RouteView>::empty());
    }
    while i < rs.len()
        invariant
            i <= rs.len(),
            all == routes::route_views(rs@),
            paths@ == with_routes(core, all.take(i as int)),
        decreases rs.len() - i,
    {
        let route = &rs[i];
        let entry = match paths.get(route.path.as_str()) {
            Some(e) => e.duplicate(),
            None => Json::object(),
        };
        if entry.get(route.method.as_str()).is_none() {
            paths = paths.with(
                route.path.as_str(),
                entry.with(route.method.as_str(), plugin_operation(route)),
            );
        }
        proof {
            assert(all.take(i + 1).drop_last() =~= all.take(i as int));
            assert(all.take(i + 1).last() == route@);
        }
        i = i + 1;
    }
    proof {
        assert(all.take(rs@.len() as int) =~= all);
    }
    assign_operation_ids(paths)
}

/// Builds the whole document. `server_url` is the deployment's public address,
/// `collections` is what the store holds, and `admin_only` says whether the
/// document is closed to all but administrators, which it states about itself.
pub fn build_spec(
    server_url: &str,
    collections: &[String],
    routes: &[PluginRoute],
    admin_only: bool,
) -> (r: Json)
    ensures
        r@ == document(
            server_url@,
            text::views(collections@),
            routes::route_views(routes@),
            admin_only,
        ),
{
    let url = if server_url.is_empty() {
        "/"
    } else {
        server_url
    };
    Json::object()
        .with_text("openapi", "3.1.0")
        .with("info", build_info())
        .with("servers", Json::array().and(Json::object().with_text("url", url)))
        .with("security", Json::array().and(session_required()))
        .with("tags", build_tags())
        .with("paths", build_paths(collections, routes, admin_only))
        .with(
            "components",
            Json::object()
                .with("securitySchemes", build_security_schemes())
                .with("schemas", schemas()),
        )
}

// ---------------------------------------------------------------------------
// Serving it
// ---------------------------------------------------------------------------

/// Whether a caller may read the document, and the status they are refused
/// with where they may not.
pub open spec fn visible(
    private: bool,
    signed_in: bool,
    internals: ItemView,
    user: Option<Item>,
) -> Result<(), u16> {
    if !private {
        Ok(())
    } else if !signed_in {
        Err(401u16)
    } else if !secret::is_admin(internals, user) {
        Err(403u16)
    } else {
        Ok(())
    }
}

/// Refuses a caller where this deployment keeps its description private.
pub fn ensure_visible(
    private: bool,
    signed_in: bool,
    internals: &Item,
    user: &Option<Item>,
) -> (r: Result<(), u16>)
    ensures
        r == visible(private, signed_in, internals@, *user),
{
    if !private {
        return Ok(());
    }
    if !signed_in {
        return Err(401);
    }
    if ensure_admin(internals, user) {
        Ok(())
    } else {
        Err(403)
    }
}

/// Whether a document describes this deployment.
pub open spec fn describes(
    d: JsonView,
    internals: ItemView,
    collections: Seq<Seq<char>>,
    public_url: Seq<char>,
    private: bool,
) -> bool {
    exists|rs: Seq<RouteView>| #[trigger]
        routes::lists_routes(internals, rs) && d == document(public_url, collections, rs, private)
}

/// The document for this deployment.
pub fn spec_for(internals: &Item, collections: &[String], public_url: &str, private: bool) -> (r:
    Json)
    ensures
        describes(r@, internals@, text::views(collections@), public_url@, private),
{
    let rs = plugin_routes(internals);
    let r = build_spec(public_url, collections, rs.as_slice(), private);
    proof {
        assert(routes::lists_routes(internals@, routes::route_views(rs@)));
    }
    r
}

/// The document, for whoever may read it.
pub fn openapi_json(
    private: bool,
    signed_in: bool,
    user: &Option<Item>,
    internals: &Item,
    collections: &[String],
    public_url: &str,
) -> (r: Result<Json, u16>)
    ensures
        match visible(private, signed_in, internals@, *user) {
            Ok(_) => r is Ok && describes(
                r->Ok_0@,
                internals@,
                text::views(collections@),
                public_url@,
                private,
            ),
            Err(status) => r == Err::<Json, u16>(status),
        },
{
    match ensure_visible(private, signed_in, internals, user) {
        Ok(_) => Ok(spec_for(internals, collections, public_url, private)),
        Err(status) => Err(status),
    }
}

/// The document rendered as a page, for whoever may read it.
pub fn openapi_docs(
    private: bool,
    signed_in: bool,
    user: &Option<Item>,
    internals: &Item,
    collections: &[String],
    public_url: &str,
) -> (r: Result<String, u16>)
    ensures
        match visible(private, signed_in, internals@, *user) {
            Ok(_) => r is Ok && exists|d: JsonView| #[trigger]
                describes(d, internals@, text::views(collections@), public_url@, private)
                    && r->Ok_0@ == render::page(d),
            Err(status) => r == Err::<String, u16>(status),
        },
{
    match ensure_visible(private, signed_in, internals, user) {
        Ok(_) => Ok(render_html(&spec_for(internals, collections, public_url, private))),
        Err(status) => Err(status),
    }
}

/// An open description is for everybody. A private one is for administrators alone:
/// whoever is not signed in is asked to be, and anybody else is turned away.
pub proof fn who_may_read_the_description(
    signed_in: bool,
    internals: ItemView,
    user: Option<Item>,
)
    ensures
        visible(false, signed_in, internals, user) is Ok,
        visible(true, false, internals, user) == Err::<(), u16>(401u16),
        visible(true, true, internals, user) is Ok <==> (user is Some
            && user->Some_0@.bools.get("role_is_active"@) == Some(true)
            && user->Some_0@.bools.get(internals.str("user_role_prefix"@, "role_is_"@) + "admin"@)
            == Some(true)),
        visible(true, true, internals, user) is Err ==> visible(true, true, internals, user)
            == Err::<(), u16>(403u16),
{
}

} // verus!
