//! What holds of every description of the API.
use crate::json;
use crate::json::JsonView;
use crate::server::openapi::doc;
use crate::server::openapi::document;
use crate::server::openapi::render;
use crate::server::openapi::routes;
use crate::server::openapi::routes::{RouteKind, RouteView};
use crate::server::openapi::spots;
use crate::server::openapi::spots::SpotView;
use crate::text;
use vstd::prelude::*;

verus! {

// ---------------------------------------------------------------------------
// References
// ---------------------------------------------------------------------------

/// Whether the document has the schema that a reference names.
pub open spec fn resolves(r: Seq<char>) -> bool {
    exists|name: Seq<char>| #[trigger] doc::ref_to(name) == r && doc::schemas().get(name) is Some
}

/// Whether every reference in a part of the document resolves.
pub open spec fn refs_resolve(v: JsonView) -> bool
    decreases v,
{
    match v {
        JsonView::Object(e) => forall|i: int| #![trigger e[i]]
            0 <= i < e.len() ==> (e[i].0 == "$ref"@ && e[i].1 is Text ==> resolves(
                e[i].1->Text_0,
            )) && refs_resolve(e[i].1),
        JsonView::Array(a) => forall|i: int| #![trigger a[i]] 0 <= i < a.len() ==> refs_resolve(
            a[i],
        ),
        _ => true,
    }
}

/// Whether a name is not the one that references go by.
spec fn plain(k: Seq<char>) -> bool {
    k != "$ref"@
}

proof fn placed_members(
    entries: Seq<(Seq<char>, JsonView)>,
    k: Seq<char>,
    v: JsonView,
    i: int,
)
    requires
        0 <= i < json::placed(entries, k, v).len(),
    ensures
        json::placed(entries, k, v)[i] == (k, v) || exists|j: int|
            0 <= j < entries.len() && #[trigger] entries[j] == json::placed(entries, k, v)[i],
    decreases entries.len(),
{
    let p = json::placed(entries, k, v);
    if entries.len() > 0 {
        let rest = entries.drop_first();
        if entries[0].0 == k {
            if i > 0 {
                assert(p[i] == rest[i - 1]);
                assert(p[i] == entries[i]);
            }
        } else if i > 0 {
            assert(p[i] == json::placed(rest, k, v)[i - 1]);
            placed_members(rest, k, v, i - 1);
            if p[i] != (k, v) {
                let j = choose|j: int|
                    0 <= j < rest.len() && #[trigger] rest[j] == json::placed(rest, k, v)[i - 1];
                assert(entries[j + 1] == rest[j]);
            }
        } else {
            assert(p[0] == entries[0]);
        }
    }
}

proof fn refs_with(o: JsonView, k: Seq<char>, v: JsonView)
    requires
        refs_resolve(o),
        refs_resolve(v),
        k == "$ref"@ && v is Text ==> resolves(v->Text_0),
    ensures
        refs_resolve(o.with(k, v)),
{
    reveal(JsonView::with);
    match o {
        JsonView::Object(e) => {
            let p = json::placed(e, k, v);
            assert forall|i: int| #![trigger p[i]] 0 <= i < p.len() implies (p[i].0 == "$ref"@
                && p[i].1 is Text ==> resolves(p[i].1->Text_0)) && refs_resolve(p[i].1) by {
                placed_members(e, k, v, i);
                if p[i] != (k, v) {
                    let j = choose|j: int| 0 <= j < e.len() && #[trigger] e[j] == p[i];
                    assert(refs_resolve(e[j].1));
                }
            }
        },
        _ => {},
    }
}

broadcast proof fn refs_with_plain(o: JsonView, k: Seq<char>, v: JsonView)
    requires
        refs_resolve(o),
        refs_resolve(v),
        plain(k),
    ensures
        #[trigger] refs_resolve(o.with(k, v)),
{
    refs_with(o, k, v);
}

broadcast proof fn refs_with_text(o: JsonView, k: Seq<char>, s: Seq<char>)
    requires
        refs_resolve(o),
        plain(k),
    ensures
        #[trigger] refs_resolve(o.with_text(k, s)),
{
    refs_with(o, k, JsonView::Text(s));
}

broadcast proof fn refs_and(o: JsonView, v: JsonView)
    requires
        refs_resolve(o),
        refs_resolve(v),
    ensures
        #[trigger] refs_resolve(o.and(v)),
{
    reveal(JsonView::and);
    match o {
        JsonView::Array(e) => {
            let p = e.push(v);
            assert forall|i: int| #![trigger p[i]] 0 <= i < p.len() implies refs_resolve(p[i]) by {
                if i < e.len() {
                    assert(p[i] == e[i]);
                    assert(refs_resolve(e[i]));
                }
            }
        },
        _ => {},
    }
}

broadcast proof fn refs_and_text(o: JsonView, s: Seq<char>)
    requires
        refs_resolve(o),
    ensures
        #[trigger] refs_resolve(o.and_text(s)),
{
    refs_and(o, JsonView::Text(s));
}

// ---------------------------------------------------------------------------
// Sections
// ---------------------------------------------------------------------------

/// The section that an operation stands in.
pub open spec fn section_of(op: JsonView) -> Option<Seq<char>> {
    op.at("tags"@).first().text()
}

/// Whether the document has a section of this name.
pub open spec fn is_section(name: Option<Seq<char>>) -> bool {
    ||| name == Some("auth"@)
    ||| name == Some("items"@)
    ||| name == Some("settings"@)
    ||| name == Some("secrets"@)
    ||| name == Some("system"@)
    ||| name == Some("meta"@)
    ||| name == Some("plugin"@)
    ||| name == Some("plugin (public)"@)
    ||| name == Some("plugin (rest)"@)
}

/// Whether every operation of a path stands in a section of the document.
pub open spec fn filed(path: JsonView) -> bool {
    match path {
        JsonView::Object(ms) => forall|i: int| #![trigger ms[i]]
            0 <= i < ms.len() ==> ms[i].1 is Object && is_section(section_of(ms[i].1)),
        _ => false,
    }
}

/// Whether every operation of every path stands in a section of the document.
pub open spec fn all_filed(paths: JsonView) -> bool {
    match paths {
        JsonView::Object(ps) => forall|i: int| #![trigger ps[i]] 0 <= i < ps.len() ==> filed(
            ps[i].1,
        ),
        _ => false,
    }
}

spec fn other(k: Seq<char>) -> bool {
    k != "tags"@
}

broadcast proof fn section_with(o: JsonView, k: Seq<char>, v: JsonView)
    requires
        o is Object,
    ensures
        (#[trigger] o.with(k, v)) is Object,
        section_of(o.with(k, v)) == if k == "tags"@ {
            v.first().text()
        } else {
            section_of(o)
        },
{
    reveal(JsonView::with);
    json::member_of_placed(o->Object_0, k, v, "tags"@);
}

broadcast proof fn filed_with(o: JsonView, k: Seq<char>, op: JsonView)
    requires
        filed(o),
        op is Object,
        is_section(section_of(op)),
    ensures
        #[trigger] filed(o.with(k, op)),
{
    reveal(JsonView::with);
    let e = o->Object_0;
    let p = json::placed(e, k, op);
    assert forall|i: int| #![trigger p[i]] 0 <= i < p.len() implies p[i].1 is Object && is_section(
        section_of(p[i].1),
    ) by {
        placed_members(e, k, op, i);
        if p[i] != (k, op) {
            let j = choose|j: int| 0 <= j < e.len() && #[trigger] e[j] == p[i];
            assert(e[j].1 is Object);
        }
    }
}

broadcast proof fn all_filed_with(o: JsonView, k: Seq<char>, path: JsonView)
    requires
        all_filed(o),
        filed(path),
    ensures
        #[trigger] all_filed(o.with(k, path)),
{
    reveal(JsonView::with);
    let e = o->Object_0;
    let p = json::placed(e, k, path);
    assert forall|i: int| #![trigger p[i]] 0 <= i < p.len() implies filed(p[i].1) by {
        placed_members(e, k, path, i);
        if p[i] != (k, path) {
            let j = choose|j: int| 0 <= j < e.len() && #[trigger] e[j] == p[i];
            assert(filed(e[j].1));
        }
    }
}

// ---------------------------------------------------------------------------
// The parts of the document
// ---------------------------------------------------------------------------

proof fn names_are_plain()
    ensures
        plain("*/*"@),
        plain("/auth/config"@),
        plain("/auth/config/forget"@),
        plain("/auth/providers"@),
        plain("/auth/{provider}/callback"@),
        plain("/auth/{provider}/start"@),
        plain("/docs"@),
        plain("/gen_otp"@),
        plain("/is_logged_in"@),
        plain("/itm/del"@),
        plain("/itm/edit"@),
        plain("/itm/list"@),
        plain("/login"@),
        plain("/logout"@),
        plain("/openapi.json"@),
        plain("/register"@),
        plain("/secret/del"@),
        plain("/secret/edit"@),
        plain("/secret/get"@),
        plain("/secret/list"@),
        plain("/setting/edit"@),
        plain("/setting/gcal_auth"@),
        plain("/setting/gcal_auth_end"@),
        plain("/setting/list"@),
        plain("/system/update"@),
        plain("200"@),
        plain("302"@),
        plain("400"@),
        plain("401"@),
        plain("403"@),
        plain("404"@),
        plain("413"@),
        plain("500"@),
        plain("DetailedLoginUser"@),
        plain("Item"@),
        plain("ItemDataNode"@),
        plain("ListResult"@),
        plain("ProcessResult"@),
        plain("SecretRef"@),
        plain("action"@),
        plain("additionalProperties"@),
        plain("application/json"@),
        plain("application/x-www-form-urlencoded"@),
        plain("bools"@),
        plain("client_id"@),
        plain("client_secret"@),
        plain("code"@),
        plain("components"@),
        plain("content"@),
        plain("data"@),
        plain("default"@),
        plain("description"@),
        plain("dry"@),
        plain("email"@),
        plain("enum"@),
        plain("error"@),
        plain("example"@),
        plain("format"@),
        plain("get"@),
        plain("id"@),
        plain("identifier"@),
        plain("ids"@),
        plain("in"@),
        plain("info"@),
        plain("item"@),
        plain("items"@),
        plain("key_id"@),
        plain("license"@),
        plain("licensed_to"@),
        plain("login"@),
        plain("map"@),
        plain("minimum"@),
        plain("multipart/form-data"@),
        plain("name"@),
        plain("openapi"@),
        plain("operationId"@),
        plain("parameters"@),
        plain("params"@),
        plain("password"@),
        plain("paths"@),
        plain("post"@),
        plain("private_key"@),
        plain("properties"@),
        plain("provider"@),
        plain("providers"@),
        plain("redirect_uri"@),
        plain("requestBody"@),
        plain("required"@),
        plain("responses"@),
        plain("role"@),
        plain("root_node"@),
        plain("schema"@),
        plain("schemas"@),
        plain("security"@),
        plain("securitySchemes"@),
        plain("servers"@),
        plain("sessionCookie"@),
        plain("site_logo"@),
        plain("site_name"@),
        plain("state"@),
        plain("strids"@),
        plain("strs"@),
        plain("strstrs"@),
        plain("subnodes"@),
        plain("succeeded"@),
        plain("summary"@),
        plain("tags"@),
        plain("team_id"@),
        plain("text/html"@),
        plain("text/plain"@),
        plain("title"@),
        plain("total_count"@),
        plain("type"@),
        plain("u64s"@),
        plain("url"@),
        plain("username"@),
        plain("value"@),
        plain("value_type"@),
        plain("version"@),
        plain("writable"@),
{
    reveal_strlit("$ref");
    assert("$ref"@.len() == 4 && "$ref"@[0] == '$');
    reveal_strlit("*/*");
    assert("*/*"@.len() == 3);
    reveal_strlit("/auth/config");
    assert("/auth/config"@.len() == 12);
    reveal_strlit("/auth/config/forget");
    assert("/auth/config/forget"@.len() == 19);
    reveal_strlit("/auth/providers");
    assert("/auth/providers"@.len() == 15);
    reveal_strlit("/auth/{provider}/callback");
    assert("/auth/{provider}/callback"@.len() == 25);
    reveal_strlit("/auth/{provider}/start");
    assert("/auth/{provider}/start"@.len() == 22);
    reveal_strlit("/docs");
    assert("/docs"@.len() == 5);
    reveal_strlit("/gen_otp");
    assert("/gen_otp"@.len() == 8);
    reveal_strlit("/is_logged_in");
    assert("/is_logged_in"@.len() == 13);
    reveal_strlit("/itm/del");
    assert("/itm/del"@.len() == 8);
    reveal_strlit("/itm/edit");
    assert("/itm/edit"@.len() == 9);
    reveal_strlit("/itm/list");
    assert("/itm/list"@.len() == 9);
    reveal_strlit("/login");
    assert("/login"@.len() == 6);
    reveal_strlit("/logout");
    assert("/logout"@.len() == 7);
    reveal_strlit("/openapi.json");
    assert("/openapi.json"@.len() == 13);
    reveal_strlit("/register");
    assert("/register"@.len() == 9);
    reveal_strlit("/secret/del");
    assert("/secret/del"@.len() == 11);
    reveal_strlit("/secret/edit");
    assert("/secret/edit"@.len() == 12);
    reveal_strlit("/secret/get");
    assert("/secret/get"@.len() == 11);
    reveal_strlit("/secret/list");
    assert("/secret/list"@.len() == 12);
    reveal_strlit("/setting/edit");
    assert("/setting/edit"@.len() == 13);
    reveal_strlit("/setting/gcal_auth");
    assert("/setting/gcal_auth"@.len() == 18);
    reveal_strlit("/setting/gcal_auth_end");
    assert("/setting/gcal_auth_end"@.len() == 22);
    reveal_strlit("/setting/list");
    assert("/setting/list"@.len() == 13);
    reveal_strlit("/system/update");
    assert("/system/update"@.len() == 14);
    reveal_strlit("200");
    assert("200"@.len() == 3);
    reveal_strlit("302");
    assert("302"@.len() == 3);
    reveal_strlit("400");
    assert("400"@.len() == 3);
    reveal_strlit("401");
    assert("401"@.len() == 3);
    reveal_strlit("403");
    assert("403"@.len() == 3);
    reveal_strlit("404");
    assert("404"@.len() == 3);
    reveal_strlit("413");
    assert("413"@.len() == 3);
    reveal_strlit("500");
    assert("500"@.len() == 3);
    reveal_strlit("DetailedLoginUser");
    assert("DetailedLoginUser"@.len() == 17);
    reveal_strlit("Item");
    assert("Item"@[0] != '$');
    reveal_strlit("ItemDataNode");
    assert("ItemDataNode"@.len() == 12);
    reveal_strlit("ListResult");
    assert("ListResult"@.len() == 10);
    reveal_strlit("ProcessResult");
    assert("ProcessResult"@.len() == 13);
    reveal_strlit("SecretRef");
    assert("SecretRef"@.len() == 9);
    reveal_strlit("action");
    assert("action"@.len() == 6);
    reveal_strlit("additionalProperties");
    assert("additionalProperties"@.len() == 20);
    reveal_strlit("application/json");
    assert("application/json"@.len() == 16);
    reveal_strlit("application/x-www-form-urlencoded");
    assert("application/x-www-form-urlencoded"@.len() == 33);
    reveal_strlit("bools");
    assert("bools"@.len() == 5);
    reveal_strlit("client_id");
    assert("client_id"@.len() == 9);
    reveal_strlit("client_secret");
    assert("client_secret"@.len() == 13);
    reveal_strlit("code");
    assert("code"@[0] != '$');
    reveal_strlit("components");
    assert("components"@.len() == 10);
    reveal_strlit("content");
    assert("content"@.len() == 7);
    reveal_strlit("data");
    assert("data"@[0] != '$');
    reveal_strlit("default");
    assert("default"@.len() == 7);
    reveal_strlit("description");
    assert("description"@.len() == 11);
    reveal_strlit("dry");
    assert("dry"@.len() == 3);
    reveal_strlit("email");
    assert("email"@.len() == 5);
    reveal_strlit("enum");
    assert("enum"@[0] != '$');
    reveal_strlit("error");
    assert("error"@.len() == 5);
    reveal_strlit("example");
    assert("example"@.len() == 7);
    reveal_strlit("format");
    assert("format"@.len() == 6);
    reveal_strlit("get");
    assert("get"@.len() == 3);
    reveal_strlit("id");
    assert("id"@.len() == 2);
    reveal_strlit("identifier");
    assert("identifier"@.len() == 10);
    reveal_strlit("ids");
    assert("ids"@.len() == 3);
    reveal_strlit("in");
    assert("in"@.len() == 2);
    reveal_strlit("info");
    assert("info"@[0] != '$');
    reveal_strlit("item");
    assert("item"@[0] != '$');
    reveal_strlit("items");
    assert("items"@.len() == 5);
    reveal_strlit("key_id");
    assert("key_id"@.len() == 6);
    reveal_strlit("license");
    assert("license"@.len() == 7);
    reveal_strlit("licensed_to");
    assert("licensed_to"@.len() == 11);
    reveal_strlit("login");
    assert("login"@.len() == 5);
    reveal_strlit("map");
    assert("map"@.len() == 3);
    reveal_strlit("minimum");
    assert("minimum"@.len() == 7);
    reveal_strlit("multipart/form-data");
    assert("multipart/form-data"@.len() == 19);
    reveal_strlit("name");
    assert("name"@[0] != '$');
    reveal_strlit("openapi");
    assert("openapi"@.len() == 7);
    reveal_strlit("operationId");
    assert("operationId"@.len() == 11);
    reveal_strlit("parameters");
    assert("parameters"@.len() == 10);
    reveal_strlit("params");
    assert("params"@.len() == 6);
    reveal_strlit("password");
    assert("password"@.len() == 8);
    reveal_strlit("paths");
    assert("paths"@.len() == 5);
    reveal_strlit("post");
    assert("post"@[0] != '$');
    reveal_strlit("private_key");
    assert("private_key"@.len() == 11);
    reveal_strlit("properties");
    assert("properties"@.len() == 10);
    reveal_strlit("provider");
    assert("provider"@.len() == 8);
    reveal_strlit("providers");
    assert("providers"@.len() == 9);
    reveal_strlit("redirect_uri");
    assert("redirect_uri"@.len() == 12);
    reveal_strlit("requestBody");
    assert("requestBody"@.len() == 11);
    reveal_strlit("required");
    assert("required"@.len() == 8);
    reveal_strlit("responses");
    assert("responses"@.len() == 9);
    reveal_strlit("role");
    assert("role"@[0] != '$');
    reveal_strlit("root_node");
    assert("root_node"@.len() == 9);
    reveal_strlit("schema");
    assert("schema"@.len() == 6);
    reveal_strlit("schemas");
    assert("schemas"@.len() == 7);
    reveal_strlit("security");
    assert("security"@.len() == 8);
    reveal_strlit("securitySchemes");
    assert("securitySchemes"@.len() == 15);
    reveal_strlit("servers");
    assert("servers"@.len() == 7);
    reveal_strlit("sessionCookie");
    assert("sessionCookie"@.len() == 13);
    reveal_strlit("site_logo");
    assert("site_logo"@.len() == 9);
    reveal_strlit("site_name");
    assert("site_name"@.len() == 9);
    reveal_strlit("state");
    assert("state"@.len() == 5);
    reveal_strlit("strids");
    assert("strids"@.len() == 6);
    reveal_strlit("strs");
    assert("strs"@[0] != '$');
    reveal_strlit("strstrs");
    assert("strstrs"@.len() == 7);
    reveal_strlit("subnodes");
    assert("subnodes"@.len() == 8);
    reveal_strlit("succeeded");
    assert("succeeded"@.len() == 9);
    reveal_strlit("summary");
    assert("summary"@.len() == 7);
    reveal_strlit("tags");
    assert("tags"@[0] != '$');
    reveal_strlit("team_id");
    assert("team_id"@.len() == 7);
    reveal_strlit("text/html");
    assert("text/html"@.len() == 9);
    reveal_strlit("text/plain");
    assert("text/plain"@.len() == 10);
    reveal_strlit("title");
    assert("title"@.len() == 5);
    reveal_strlit("total_count");
    assert("total_count"@.len() == 11);
    reveal_strlit("type");
    assert("type"@[0] != '$');
    reveal_strlit("u64s");
    assert("u64s"@[0] != '$');
    reveal_strlit("url");
    assert("url"@.len() == 3);
    reveal_strlit("username");
    assert("username"@.len() == 8);
    reveal_strlit("value");
    assert("value"@.len() == 5);
    reveal_strlit("value_type");
    assert("value_type"@.len() == 10);
    reveal_strlit("version");
    assert("version"@.len() == 7);
    reveal_strlit("writable");
    assert("writable"@.len() == 8);
}

broadcast proof fn has_with(o: JsonView, k: Seq<char>, v: JsonView, q: Seq<char>)
    requires
        o is Object,
        q == k || o.get(q) is Some,
    ensures
        #[trigger] o.with(k, v).get(q) is Some,
{
    reveal(JsonView::with);
    json::member_of_placed(o->Object_0, k, v, q);
}

broadcast proof fn one_is_first(s: Seq<char>)
    ensures
        (#[trigger] doc::one(s)).first().text() == Some(s),
{
    reveal(JsonView::and);
}

broadcast proof fn refs_one(s: Seq<char>)
    ensures
        #[trigger] refs_resolve(doc::one(s)),
{
    refs_and_text(JsonView::array(), s);
}

broadcast proof fn refs_typed(t: Seq<char>)
    ensures
        #[trigger] refs_resolve(doc::typed(t)),
{
    names_are_plain();
    refs_with_text(JsonView::object(), "type"@, t);
}

broadcast proof fn refs_typed_as(t: Seq<char>, description: Seq<char>)
    ensures
        #[trigger] refs_resolve(doc::typed_as(t, description)),
{
    names_are_plain();
    refs_typed(t);
    refs_with_text(doc::typed(t), "description"@, description);
}

broadcast proof fn refs_schema_ref(name: Seq<char>)
    requires
        doc::schemas().get(name) is Some,
    ensures
        #[trigger] refs_resolve(doc::schema_ref(name)),
{
    assert(resolves(doc::ref_to(name)));
    refs_with(JsonView::object(), "$ref"@, JsonView::Text(doc::ref_to(name)));
}

broadcast proof fn refs_content(mime: Seq<char>, schema: JsonView)
    requires
        refs_resolve(schema),
    ensures
        #[trigger] refs_resolve(doc::content(mime, schema)),
{
    reveal(JsonView::with);
    names_are_plain();
    refs_with(JsonView::object(), "schema"@, schema);
    refs_with(JsonView::object(), mime, JsonView::object().with("schema"@, schema));
}

broadcast proof fn refs_returned(description: Seq<char>, mime: Seq<char>, schema: JsonView)
    requires
        refs_resolve(schema),
    ensures
        #[trigger] refs_resolve(doc::returned(description, mime, schema)),
{
    broadcast use {refs_with_plain, refs_with_text, refs_content};

    names_are_plain();
}

broadcast proof fn refs_json_response(description: Seq<char>, schema: JsonView)
    requires
        refs_resolve(schema),
    ensures
        #[trigger] refs_resolve(doc::json_response(description, schema)),
{
    refs_returned(description, "application/json"@, schema);
}

broadcast proof fn refs_empty_response(description: Seq<char>)
    ensures
        #[trigger] refs_resolve(doc::empty_response(description)),
{
    names_are_plain();
    refs_with_text(JsonView::object(), "description"@, description);
}

broadcast proof fn refs_body(required: bool, mime: Seq<char>, schema: JsonView)
    requires
        refs_resolve(schema),
    ensures
        #[trigger] refs_resolve(doc::body(required, mime, schema)),
{
    broadcast use {refs_with_plain, refs_content};

    names_are_plain();
}

broadcast proof fn refs_query_param(name: Seq<char>, schema: JsonView, description: Seq<char>)
    requires
        refs_resolve(schema),
    ensures
        #[trigger] refs_resolve(doc::query_param(name, schema, description)),
{
    broadcast use {refs_with_plain, refs_with_text};

    names_are_plain();
}

broadcast group refs_of_parts {
    refs_with_plain,
    refs_with_text,
    refs_and,
    refs_and_text,
    refs_one,
    refs_typed,
    refs_typed_as,
    refs_schema_ref,
    refs_returned,
    refs_json_response,
    refs_empty_response,
    refs_body,
    refs_query_param,
}

proof fn schemas_are_there()
    ensures
        doc::schemas().get("Item"@) is Some,
        doc::schemas().get("ItemDataNode"@) is Some,
        doc::schemas().get("ListResult"@) is Some,
        doc::schemas().get("ProcessResult"@) is Some,
        doc::schemas().get("DetailedLoginUser"@) is Some,
        doc::schemas().get("SecretRef"@) is Some,
{
    broadcast use has_with;

}

proof fn shared_parts_resolve()
    ensures
        refs_resolve(doc::u64_schema()),
        refs_resolve(doc::str_map()),
        refs_resolve(doc::session_required()),
        refs_resolve(doc::open_to_all()),
        refs_resolve(doc::session_optional()),
        refs_resolve(doc::process_result_200()),
        refs_resolve(doc::merge_param()),
        refs_resolve(doc::secret_id_body()),
{
    broadcast use refs_of_parts;

    names_are_plain();
    schemas_are_there();
}

proof fn text_array_resolves(v: Seq<Seq<char>>)
    ensures
        refs_resolve(json::text_array(v)),
{
    let a = json::text_array(v)->Array_0;
    assert forall|i: int| #![trigger a[i]] 0 <= i < a.len() implies refs_resolve(a[i]) by {
        assert(a[i] == JsonView::Text(v[i]));
    }
}

proof fn collection_param_resolves(collections: Seq<Seq<char>>)
    ensures
        refs_resolve(doc::collection_param(collections)),
{
    broadcast use refs_of_parts;

    names_are_plain();
    text_array_resolves(text::sorted(collections));
}

proof fn members_beside_tags()
    ensures
        other("summary"@),
        other("description"@),
        other("security"@),
        other("parameters"@),
        other("requestBody"@),
        other("responses"@),
        other("operationId"@),
{
    reveal_strlit("tags");
    reveal_strlit("summary");
    reveal_strlit("description");
    reveal_strlit("security");
    reveal_strlit("parameters");
    reveal_strlit("requestBody");
    reveal_strlit("responses");
    reveal_strlit("operationId");
    assert("tags"@.len() == 4);
    assert("summary"@.len() == 7);
    assert("description"@.len() == 11);
    assert("security"@.len() == 8);
    assert("parameters"@.len() == 10);
    assert("requestBody"@.len() == 11);
    assert("responses"@.len() == 9);
    assert("operationId"@.len() == 11);
}

proof fn path_is_logged_in_holds()
    ensures
        refs_resolve(doc::path_is_logged_in()),
        filed(doc::path_is_logged_in()),
{
    broadcast use {refs_of_parts, section_with, filed_with, one_is_first};

    names_are_plain();
    members_beside_tags();
    schemas_are_there();
    shared_parts_resolve();
}

proof fn path_login_holds()
    ensures
        refs_resolve(doc::path_login()),
        filed(doc::path_login()),
{
    broadcast use {refs_of_parts, section_with, filed_with, one_is_first};

    names_are_plain();
    members_beside_tags();
    schemas_are_there();
    shared_parts_resolve();
}

proof fn path_auth_providers_holds()
    ensures
        refs_resolve(doc::path_auth_providers()),
        filed(doc::path_auth_providers()),
{
    broadcast use {refs_of_parts, section_with, filed_with, one_is_first};

    names_are_plain();
    members_beside_tags();
    schemas_are_there();
    shared_parts_resolve();
}

proof fn path_auth_config_holds()
    ensures
        refs_resolve(doc::path_auth_config()),
        filed(doc::path_auth_config()),
{
    broadcast use {refs_of_parts, section_with, filed_with, one_is_first};

    names_are_plain();
    members_beside_tags();
    schemas_are_there();
    shared_parts_resolve();
}

proof fn path_auth_config_forget_holds()
    ensures
        refs_resolve(doc::path_auth_config_forget()),
        filed(doc::path_auth_config_forget()),
{
    broadcast use {refs_of_parts, section_with, filed_with, one_is_first};

    names_are_plain();
    members_beside_tags();
    schemas_are_there();
    shared_parts_resolve();
}

proof fn path_auth_provider_start_holds()
    ensures
        refs_resolve(doc::path_auth_provider_start()),
        filed(doc::path_auth_provider_start()),
{
    broadcast use {refs_of_parts, section_with, filed_with, one_is_first};

    names_are_plain();
    members_beside_tags();
    schemas_are_there();
    shared_parts_resolve();
}

proof fn path_auth_provider_callback_holds()
    ensures
        refs_resolve(doc::path_auth_provider_callback()),
        filed(doc::path_auth_provider_callback()),
{
    broadcast use {refs_of_parts, section_with, filed_with, one_is_first};

    names_are_plain();
    members_beside_tags();
    schemas_are_there();
    shared_parts_resolve();
}

proof fn path_logout_holds()
    ensures
        refs_resolve(doc::path_logout()),
        filed(doc::path_logout()),
{
    broadcast use {refs_of_parts, section_with, filed_with, one_is_first};

    names_are_plain();
    members_beside_tags();
    schemas_are_there();
    shared_parts_resolve();
}

proof fn path_register_holds()
    ensures
        refs_resolve(doc::path_register()),
        filed(doc::path_register()),
{
    broadcast use {refs_of_parts, section_with, filed_with, one_is_first};

    names_are_plain();
    members_beside_tags();
    schemas_are_there();
    shared_parts_resolve();
}

proof fn path_gen_otp_holds()
    ensures
        refs_resolve(doc::path_gen_otp()),
        filed(doc::path_gen_otp()),
{
    broadcast use {refs_of_parts, section_with, filed_with, one_is_first};

    names_are_plain();
    members_beside_tags();
    schemas_are_there();
    shared_parts_resolve();
}

proof fn path_itm_list_holds(collections: Seq<Seq<char>>)
    ensures
        refs_resolve(doc::path_itm_list(collections)),
        filed(doc::path_itm_list(collections)),
{
    broadcast use {refs_of_parts, section_with, filed_with, one_is_first};

    names_are_plain();
    members_beside_tags();
    schemas_are_there();
    shared_parts_resolve();
    collection_param_resolves(collections);
}

proof fn path_itm_edit_holds(collections: Seq<Seq<char>>)
    ensures
        refs_resolve(doc::path_itm_edit(collections)),
        filed(doc::path_itm_edit(collections)),
{
    broadcast use {refs_of_parts, section_with, filed_with, one_is_first};

    names_are_plain();
    members_beside_tags();
    schemas_are_there();
    shared_parts_resolve();
    collection_param_resolves(collections);
}

proof fn path_itm_del_holds(collections: Seq<Seq<char>>)
    ensures
        refs_resolve(doc::path_itm_del(collections)),
        filed(doc::path_itm_del(collections)),
{
    broadcast use {refs_of_parts, section_with, filed_with, one_is_first};

    names_are_plain();
    members_beside_tags();
    schemas_are_there();
    shared_parts_resolve();
    collection_param_resolves(collections);
}

proof fn path_setting_list_holds()
    ensures
        refs_resolve(doc::path_setting_list()),
        filed(doc::path_setting_list()),
{
    broadcast use {refs_of_parts, section_with, filed_with, one_is_first};

    names_are_plain();
    members_beside_tags();
    schemas_are_there();
    shared_parts_resolve();
}

proof fn path_setting_edit_holds()
    ensures
        refs_resolve(doc::path_setting_edit()),
        filed(doc::path_setting_edit()),
{
    broadcast use {refs_of_parts, section_with, filed_with, one_is_first};

    names_are_plain();
    members_beside_tags();
    schemas_are_there();
    shared_parts_resolve();
}

proof fn path_setting_gcal_auth_holds()
    ensures
        refs_resolve(doc::path_setting_gcal_auth()),
        filed(doc::path_setting_gcal_auth()),
{
    broadcast use {refs_of_parts, section_with, filed_with, one_is_first};

    names_are_plain();
    members_beside_tags();
    schemas_are_there();
    shared_parts_resolve();
}

proof fn path_setting_gcal_auth_end_holds()
    ensures
        refs_resolve(doc::path_setting_gcal_auth_end()),
        filed(doc::path_setting_gcal_auth_end()),
{
    broadcast use {refs_of_parts, section_with, filed_with, one_is_first};

    names_are_plain();
    members_beside_tags();
    schemas_are_there();
    shared_parts_resolve();
}

proof fn path_system_update_holds()
    ensures
        refs_resolve(doc::path_system_update()),
        filed(doc::path_system_update()),
{
    broadcast use {refs_of_parts, section_with, filed_with, one_is_first};

    names_are_plain();
    members_beside_tags();
    schemas_are_there();
    shared_parts_resolve();
}

proof fn path_secret_list_holds()
    ensures
        refs_resolve(doc::path_secret_list()),
        filed(doc::path_secret_list()),
{
    broadcast use {refs_of_parts, section_with, filed_with, one_is_first};

    names_are_plain();
    members_beside_tags();
    schemas_are_there();
    shared_parts_resolve();
}

proof fn path_secret_get_holds()
    ensures
        refs_resolve(doc::path_secret_get()),
        filed(doc::path_secret_get()),
{
    broadcast use {refs_of_parts, section_with, filed_with, one_is_first};

    names_are_plain();
    members_beside_tags();
    schemas_are_there();
    shared_parts_resolve();
}

proof fn path_secret_edit_holds()
    ensures
        refs_resolve(doc::path_secret_edit()),
        filed(doc::path_secret_edit()),
{
    broadcast use {refs_of_parts, section_with, filed_with, one_is_first};

    names_are_plain();
    members_beside_tags();
    schemas_are_there();
    shared_parts_resolve();
}

proof fn path_secret_del_holds()
    ensures
        refs_resolve(doc::path_secret_del()),
        filed(doc::path_secret_del()),
{
    broadcast use {refs_of_parts, section_with, filed_with, one_is_first};

    names_are_plain();
    members_beside_tags();
    schemas_are_there();
    shared_parts_resolve();
}

proof fn meta_paths_hold(admin_only: bool)
    ensures
        refs_resolve(doc::path_openapi(admin_only)),
        filed(doc::path_openapi(admin_only)),
        refs_resolve(doc::path_docs(admin_only)),
        filed(doc::path_docs(admin_only)),
{
    broadcast use {refs_of_parts, section_with, filed_with, one_is_first};

    names_are_plain();
    members_beside_tags();
    shared_parts_resolve();
}

proof fn schemas_resolve()
    ensures
        refs_resolve(doc::schemas()),
{
    broadcast use refs_of_parts;

    names_are_plain();
    schemas_are_there();
    shared_parts_resolve();
}

proof fn core_paths_hold(collections: Seq<Seq<char>>, admin_only: bool)
    ensures
        refs_resolve(doc::core_paths(collections, admin_only)),
        all_filed(doc::core_paths(collections, admin_only)),
{
    broadcast use {refs_with_plain, all_filed_with};

    names_are_plain();
    path_is_logged_in_holds();
    path_login_holds();
    path_auth_providers_holds();
    path_auth_config_holds();
    path_auth_config_forget_holds();
    path_auth_provider_start_holds();
    path_auth_provider_callback_holds();
    path_logout_holds();
    path_register_holds();
    path_gen_otp_holds();
    path_itm_list_holds(collections);
    path_itm_edit_holds(collections);
    path_itm_del_holds(collections);
    path_setting_list_holds();
    path_setting_edit_holds();
    path_setting_gcal_auth_holds();
    path_setting_gcal_auth_end_holds();
    path_system_update_holds();
    path_secret_list_holds();
    path_secret_get_holds();
    path_secret_edit_holds();
    path_secret_del_holds();
    meta_paths_hold(admin_only);
}

proof fn operation_holds(r: RouteView)
    ensures
        refs_resolve(routes::operation(r)),
        routes::operation(r) is Object,
        is_section(section_of(routes::operation(r))),
{
    broadcast use {refs_of_parts, section_with, one_is_first};

    names_are_plain();
    members_beside_tags();
    shared_parts_resolve();
}

proof fn routes_hold(paths: JsonView, rs: Seq<RouteView>)
    requires
        refs_resolve(paths),
        all_filed(paths),
    ensures
        refs_resolve(document::with_routes(paths, rs)),
        all_filed(document::with_routes(paths, rs)),
    decreases rs.len(),
{
    if rs.len() > 0 {
        routes_hold(paths, rs.drop_last());
        let before = document::with_routes(paths, rs.drop_last());
        let r = rs.last();
        let entry = match before.get(r.path) {
            Some(e) => e,
            None => JsonView::object(),
        };
        if before.get(r.path) is Some {
            let e = before->Object_0;
            render::member_is_smaller(e, r.path);
            let i = choose|i: int| 0 <= i < e.len() && #[trigger] e[i] == (r.path, entry);
            assert(refs_resolve(e[i].1));
            assert(filed(e[i].1));
        }
        operation_holds(r);
        section_with(entry, r.method, routes::operation(r));
        refs_with(entry, r.method, routes::operation(r));
        filed_with(entry, r.method, routes::operation(r));
        refs_with(before, r.path, entry.with(r.method, routes::operation(r)));
        all_filed_with(before, r.path, entry.with(r.method, routes::operation(r)));
    }
}

proof fn named_methods_hold(
    path: Seq<char>,
    ms: Seq<(Seq<char>, JsonView)>,
    taken: Seq<Seq<char>>,
)
    requires
        refs_resolve(JsonView::Object(ms)),
        filed(JsonView::Object(ms)),
    ensures
        refs_resolve(JsonView::Object(document::methods_named(path, ms, taken).0)),
        filed(JsonView::Object(document::methods_named(path, ms, taken).0)),
    decreases ms.len(),
{
    if ms.len() > 0 {
        let rest = ms.drop_last();
        assert forall|i: int| #![trigger rest[i]] 0 <= i < rest.len() implies refs_resolve(
            rest[i].1,
        ) && (rest[i].0 == "$ref"@ && rest[i].1 is Text ==> resolves(rest[i].1->Text_0))
            && rest[i].1 is Object && is_section(section_of(rest[i].1)) by {
            assert(rest[i] == ms[i]);
        }
        assert(refs_resolve(JsonView::Object(rest)));
        named_methods_hold(path, rest, taken);
        let done = document::methods_named(path, rest, taken).0;
        let held = document::methods_named(path, rest, taken).1;
        let last = ms.last();
        assert(last == ms[ms.len() - 1]);
        let id = document::free_name(
            last.0 + document::normalized(text::split(path, '/')),
            held,
        );
        names_are_plain();
        members_beside_tags();
        assert(other("operationId"@));
        refs_with_text(last.1, "operationId"@, id);
        section_with(last.1, "operationId"@, JsonView::Text(id));
        let now = document::methods_named(path, ms, taken).0;
        assert(now == done.push((last.0, last.1.with_text("operationId"@, id))));
        assert forall|i: int| #![trigger now[i]] 0 <= i < now.len() implies refs_resolve(now[i].1)
            && (now[i].0 == "$ref"@ && now[i].1 is Text ==> resolves(now[i].1->Text_0))
            && now[i].1 is Object && is_section(section_of(now[i].1)) by {
            if i < done.len() {
                assert(now[i] == done[i]);
            }
        }
        assert(refs_resolve(JsonView::Object(now)));
    }
}

proof fn named_paths_hold(ps: Seq<(Seq<char>, JsonView)>)
    requires
        refs_resolve(JsonView::Object(ps)),
        all_filed(JsonView::Object(ps)),
    ensures
        refs_resolve(JsonView::Object(document::paths_named(ps).0)),
        all_filed(JsonView::Object(document::paths_named(ps).0)),
    decreases ps.len(),
{
    if ps.len() > 0 {
        let rest = ps.drop_last();
        assert forall|i: int| #![trigger rest[i]] 0 <= i < rest.len() implies refs_resolve(
            rest[i].1,
        ) && (rest[i].0 == "$ref"@ && rest[i].1 is Text ==> resolves(rest[i].1->Text_0)) && filed(
            rest[i].1,
        ) by {
            assert(rest[i] == ps[i]);
        }
        assert(refs_resolve(JsonView::Object(rest)));
        named_paths_hold(rest);
        let done = document::paths_named(rest).0;
        let held = document::paths_named(rest).1;
        let last = ps.last();
        assert(last == ps[ps.len() - 1]);
        let ms = last.1->Object_0;
        named_methods_hold(last.0, ms, held);
        let now = document::paths_named(ps).0;
        assert(now == done.push(
            (last.0, JsonView::Object(document::methods_named(last.0, ms, held).0)),
        ));
        assert forall|i: int| #![trigger now[i]] 0 <= i < now.len() implies refs_resolve(now[i].1)
            && (now[i].0 == "$ref"@ && now[i].1 is Text ==> resolves(now[i].1->Text_0)) && filed(
            now[i].1,
        ) by {
            if i < done.len() {
                assert(now[i] == done[i]);
            }
        }
        assert(refs_resolve(JsonView::Object(now)));
    }
}

proof fn all_paths_hold(collections: Seq<Seq<char>>, rs: Seq<RouteView>, admin_only: bool)
    ensures
        refs_resolve(document::all_paths(collections, rs, admin_only)),
        all_filed(document::all_paths(collections, rs, admin_only)),
{
    let core = doc::core_paths(collections, admin_only);
    core_paths_hold(collections, admin_only);
    routes_hold(core, rs);
    named_paths_hold(document::with_routes(core, rs)->Object_0);
}

// ---------------------------------------------------------------------------
// The document as a whole
// ---------------------------------------------------------------------------

/// Every reference in the document resolves, whatever routes plugins add and
/// whatever collections there are.
pub proof fn every_reference_resolves(
    server_url: Seq<char>,
    collections: Seq<Seq<char>>,
    rs: Seq<RouteView>,
    admin_only: bool,
)
    ensures
        refs_resolve(document::document(server_url, collections, rs, admin_only)),
{
    broadcast use refs_of_parts;

    names_are_plain();
    shared_parts_resolve();
    schemas_resolve();
    all_paths_hold(collections, rs, admin_only);
}

broadcast proof fn get_of_with(o: JsonView, k: Seq<char>, v: JsonView, q: Seq<char>)
    requires
        o is Object,
    ensures
        (#[trigger] o.with(k, v).get(q)) == if q == k {
            Some(v)
        } else {
            o.get(q)
        },
{
    reveal(JsonView::with);
    json::member_of_placed(o->Object_0, k, v, q);
}

proof fn document_has(
    server_url: Seq<char>,
    collections: Seq<Seq<char>>,
    rs: Seq<RouteView>,
    admin_only: bool,
)
    ensures
        document::document(server_url, collections, rs, admin_only).at("paths"@)
            == document::all_paths(collections, rs, admin_only),
        document::document(server_url, collections, rs, admin_only).at("tags"@)
            == document::tags(),
        document::document(server_url, collections, rs, admin_only).at("components"@).at(
            "schemas"@,
        ) == doc::schemas(),
{
    let paths = document::all_paths(collections, rs, admin_only);
    let parts = JsonView::object().with("securitySchemes"@, document::security_schemes());
    let head = JsonView::object().with_text("openapi"@, "3.1.0"@).with(
        "info"@,
        document::info(),
    ).with("servers"@, document::servers(server_url)).with(
        "security"@,
        JsonView::array().and(doc::session_required()),
    );
    assert(head is Object) by {
        broadcast use section_with;

    }
    let tagged = head.with("tags"@, document::tags());
    let with_paths = tagged.with("paths"@, paths);
    let components = parts.with("schemas"@, doc::schemas());
    reveal_strlit("paths");
    reveal_strlit("tags");
    reveal_strlit("components");
    assert("paths"@.len() == 5 && "tags"@.len() == 4 && "components"@.len() == 10);
    section_with(JsonView::object(), "securitySchemes"@, document::security_schemes());
    section_with(head, "tags"@, document::tags());
    section_with(tagged, "paths"@, paths);
    get_of_with(parts, "schemas"@, doc::schemas(), "schemas"@);
    get_of_with(head, "tags"@, document::tags(), "tags"@);
    get_of_with(tagged, "paths"@, paths, "tags"@);
    get_of_with(tagged, "paths"@, paths, "paths"@);
    get_of_with(with_paths, "components"@, components, "tags"@);
    get_of_with(with_paths, "components"@, components, "paths"@);
    get_of_with(with_paths, "components"@, components, "components"@);
}

/// What stands in a text stands in any text that it is part of.
proof fn occurs_within(p: Seq<char>, a: Seq<char>, s: Seq<char>, b: Seq<char>)
    requires
        text::occurs_in(p, s),
    ensures
        text::occurs_in(p, a + s + b),
{
    let i = choose|i: int| text::occurs_at(p, s, i);
    assert((a + s + b).subrange(a.len() + i, a.len() + i + p.len()) =~= s.subrange(
        i,
        i + p.len(),
    ));
    assert(text::occurs_at(p, a + s + b, a.len() + i));
}

proof fn occurs_in_itself(p: Seq<char>)
    ensures
        text::occurs_in(p, p),
{
    assert(p.subrange(0, p.len() as int) =~= p);
    assert(text::occurs_at(p, p, 0));
}

proof fn listed_under_path(
    name: Seq<char>,
    path: Seq<char>,
    ms: Seq<(Seq<char>, JsonView)>,
    j: int,
)
    requires
        0 <= j < ms.len(),
        section_of(ms[j].1) == Some(name),
    ensures
        render::methods_under(name, path, ms).contains(
            (SpotView { path, method: ms[j].0, op: ms[j].1 }),
        ),
    decreases ms.len(),
{
    let all = render::methods_under(name, path, ms);
    let head = render::methods_under(name, path, ms.drop_last());
    let spot = SpotView { path, method: ms[j].0, op: ms[j].1 };
    if j == ms.len() - 1 {
        assert(all.last() == spot);
    } else {
        assert(ms.drop_last()[j] == ms[j]);
        listed_under_path(name, path, ms.drop_last(), j);
        let x = choose|x: int| 0 <= x < head.len() && head[x] == spot;
        assert(all[x] == spot);
    }
}

proof fn listed_under_heading(name: Seq<char>, ps: Seq<(Seq<char>, JsonView)>, i: int, j: int)
    requires
        0 <= i < ps.len(),
        0 <= j < render::members_of(ps[i].1).len(),
        section_of(render::members_of(ps[i].1)[j].1) == Some(name),
    ensures
        render::operations_under(name, ps).contains(
            (SpotView {
                path: ps[i].0,
                method: render::members_of(ps[i].1)[j].0,
                op: render::members_of(ps[i].1)[j].1,
            }),
        ),
    decreases ps.len(),
{
    let (method, op) = render::members_of(ps[i].1)[j];
    let spot = SpotView { path: ps[i].0, method, op };
    let all = render::operations_under(name, ps);
    let head = render::operations_under(name, ps.drop_last());
    let tail = render::methods_under(name, ps.last().0, render::members_of(ps.last().1));
    if i == ps.len() - 1 {
        listed_under_path(name, ps[i].0, render::members_of(ps[i].1), j);
        let x = choose|x: int| 0 <= x < tail.len() && tail[x] == spot;
        assert(all[head.len() + x] == spot);
    } else {
        assert(ps.drop_last()[i] == ps[i]);
        listed_under_heading(name, ps.drop_last(), i, j);
        let x = choose|x: int| 0 <= x < head.len() && head[x] == spot;
        assert(all[x] == spot);
    }
}

proof fn listed_is_shown(ops: Seq<SpotView>, x: int)
    requires
        0 <= x < ops.len(),
    ensures
        text::occurs_in(
            render::operation_shown(ops[x].path, ops[x].method, ops[x].op),
            render::operations_shown(ops),
        ),
    decreases ops.len(),
{
    let shown = render::operation_shown(ops[x].path, ops[x].method, ops[x].op);
    let head = render::operations_shown(ops.drop_last());
    let none = Seq::<char>::empty();
    if x == ops.len() - 1 {
        occurs_in_itself(shown);
        occurs_within(shown, head, shown, none);
        assert(head + shown + none =~= head + shown);
    } else {
        assert(ops.drop_last()[x] == ops[x]);
        listed_is_shown(ops.drop_last(), x);
        let last = render::operation_shown(ops.last().path, ops.last().method, ops.last().op);
        occurs_within(shown, none, head, last);
        assert(none + head + last =~= head + last);
    }
}

proof fn shown_in_sections(
    tags: Seq<JsonView>,
    ps: Seq<(Seq<char>, JsonView)>,
    t: int,
    i: int,
    j: int,
)
    requires
        0 <= t < tags.len(),
        0 <= i < ps.len(),
        0 <= j < render::members_of(ps[i].1).len(),
        section_of(render::members_of(ps[i].1)[j].1) == Some(
            tags[t].at("name"@).text_or(Seq::empty()),
        ),
    ensures
        text::occurs_in(
            render::operation_shown(
                ps[i].0,
                render::members_of(ps[i].1)[j].0,
                render::members_of(ps[i].1)[j].1,
            ),
            render::sections(tags, ps),
        ),
    decreases tags.len(),
{
    let (method, op) = render::members_of(ps[i].1)[j];
    let shown = render::operation_shown(ps[i].0, method, op);
    let head = render::sections(tags.drop_last(), ps);
    let tail = render::section(tags.last(), ps);
    let none = Seq::<char>::empty();
    if t == tags.len() - 1 {
        let name = tags[t].at("name"@).text_or(Seq::empty());
        listed_under_heading(name, ps, i, j);
        let listed = render::operations_under(name, ps);
        let spot = SpotView { path: ps[i].0, method, op };
        spots::sorting_keeps(listed, spot);
        let x = choose|x: int|
            0 <= x < spots::spots_sorted(listed).len() && spots::spots_sorted(listed)[x] == spot;
        listed_is_shown(spots::spots_sorted(listed), x);
        let ops = render::operations_shown(spots::spots_sorted(listed));
        let above = "<h2>"@ + render::escaped(name) + "</h2>\n"@ + render::between(
            "<p class=\"desc\">"@,
            tags[t].at("description"@),
            "</p>\n"@,
        );
        occurs_within(shown, above, ops, none);
        assert(above + ops + none =~= tail);
        occurs_within(shown, head, tail, none);
        assert(head + tail + none =~= head + tail);
    } else {
        assert(tags.drop_last()[t] == tags[t]);
        shown_in_sections(tags.drop_last(), ps, t, i, j);
        occurs_within(shown, none, head, tail);
        assert(none + head + tail =~= head + tail);
    }
}

proof fn tag_named(name: Seq<char>, description: Seq<char>)
    ensures
        document::tag(name, description).at("name"@).text_or(Seq::empty()) == name,
{
    broadcast use {get_of_with, section_with};

    reveal_strlit("name");
    reveal_strlit("description");
    assert("name"@.len() == 4 && "description"@.len() == 11);
}

proof fn every_section_is_there(name: Seq<char>) -> (t: int)
    requires
        is_section(Some(name)),
    ensures
        0 <= t < render::elements_of(document::tags()).len(),
        render::elements_of(document::tags())[t].at("name"@).text_or(Seq::empty()) == name,
{
    reveal(JsonView::and);
    let tags = render::elements_of(document::tags());
    assert(tags.len() == 9);
    tag_named("auth"@, "Sessions, registration and one-time codes."@);
    tag_named("items"@, "The generic collection store."@);
    tag_named("settings"@, "Deployment settings. Admin only."@);
    tag_named("secrets"@, "Encrypted secret store. Admin only."@);
    tag_named("system"@, "Operational endpoints. Admin only."@);
    tag_named("meta"@, "This document."@);
    tag_named("plugin"@, "Plugin routes requiring a session."@);
    tag_named("plugin (public)"@, "Plugin routes served without a session."@);
    tag_named("plugin (rest)"@, "Plugin routes taking a raw request body."@);
    if name == "auth"@ {
        0
    } else if name == "items"@ {
        1
    } else if name == "settings"@ {
        2
    } else if name == "secrets"@ {
        3
    } else if name == "system"@ {
        4
    } else if name == "meta"@ {
        5
    } else if name == "plugin"@ {
        6
    } else if name == "plugin (public)"@ {
        7
    } else {
        8
    }
}

/// The page shows every operation that the document has.
pub proof fn the_page_shows_every_operation(
    server_url: Seq<char>,
    collections: Seq<Seq<char>>,
    rs: Seq<RouteView>,
    admin_only: bool,
    i: int,
    j: int,
)
    requires
        ({
            let ps = render::members_of(document::all_paths(collections, rs, admin_only));
            0 <= i < ps.len() && 0 <= j < render::members_of(ps[i].1).len()
        }),
    ensures
        ({
            let ps = render::members_of(document::all_paths(collections, rs, admin_only));
            let ms = render::members_of(ps[i].1);
            text::occurs_in(
                render::operation_shown(ps[i].0, ms[j].0, ms[j].1),
                render::page(document::document(server_url, collections, rs, admin_only)),
            )
        }),
{
    let d = document::document(server_url, collections, rs, admin_only);
    let ps = render::members_of(document::all_paths(collections, rs, admin_only));
    let ms = render::members_of(ps[i].1);
    all_paths_hold(collections, rs, admin_only);
    document_has(server_url, collections, rs, admin_only);
    assert(filed(ps[i].1));
    let name = section_of(ms[j].1)->Some_0;
    let t = every_section_is_there(name);
    let tags = render::elements_of(document::tags());
    shown_in_sections(tags, ps, t, i, j);
    occurs_within(
        render::operation_shown(ps[i].0, ms[j].0, ms[j].1),
        render::page_top(d),
        render::sections(tags, ps),
        "</body></html>\n"@,
    );
}

/// The operations of a section stand in the order of their paths, and those of one
/// path in the order of their methods: none is lost, and none comes in.
pub proof fn sections_are_in_order(name: Seq<char>, ps: Seq<(Seq<char>, JsonView)>)
    ensures
        spots::spots_in_order(spots::spots_sorted(render::operations_under(name, ps))),
        spots::spots_sorted(render::operations_under(name, ps)).to_multiset()
            == render::operations_under(name, ps).to_multiset(),
{
    spots::sorting_orders(render::operations_under(name, ps));
}

/// The responses of an operation stand in the order of their codes, each code as
/// often as it is there.
pub proof fn responses_are_in_order(rs: Seq<(Seq<char>, JsonView)>)
    ensures
        text::in_order(render::names_of(render::by_name(rs))),
        render::names_of(render::by_name(rs)).to_multiset() == render::names_of(rs).to_multiset(),
{
    text::sorted_is_sorted(render::names_of(rs));
    assert(render::names_of(render::by_name(rs)) =~= text::sorted(render::names_of(rs)));
}

// ---------------------------------------------------------------------------
// Names of operations
// ---------------------------------------------------------------------------

proof fn candidates_differ(base: Seq<char>, m: nat, n: nat)
    requires
        1 <= m < n,
    ensures
        document::candidate(base, m) != document::candidate(base, n),
{
    reveal_strlit("_");
    let a = document::candidate(base, m);
    let b = document::candidate(base, n);
    if m == 1 {
        assert(b.len() > a.len());
    } else if a == b {
        let lead = base + "_"@;
        assert(text::decimal(m) =~= a.skip(lead.len() as int));
        assert(text::decimal(n) =~= b.skip(lead.len() as int));
        text::decimal_value(m);
        text::decimal_value(n);
    }
}

proof fn one_is_free(base: Seq<char>, taken: Seq<Seq<char>>)
    requires
        forall|m: nat| 1 <= m <= taken.len() ==> taken.contains(#[trigger] document::candidate(base, m)),
    ensures
        !taken.contains(document::candidate(base, (taken.len() + 1) as nat)),
{
    let n = taken.len();
    if taken.contains(document::candidate(base, (n + 1) as nat)) {
        let all = Seq::new((n + 1) as nat, |i: int| document::candidate(base, (i + 1) as nat));
        assert forall|i: int, j: int| 0 <= i < all.len() && 0 <= j < all.len() && i != j implies all[i]
            != all[j] by {
            if i < j {
                candidates_differ(base, (i + 1) as nat, (j + 1) as nat);
            } else {
                candidates_differ(base, (j + 1) as nat, (i + 1) as nat);
            }
        }
        assert(all.no_duplicates());
        all.unique_seq_to_set();
        taken.lemma_cardinality_of_set();
        assert(all.to_set().subset_of(taken.to_set())) by {
            assert forall|x: Seq<char>| all.to_set().contains(x) implies taken.to_set().contains(
                x,
            ) by {
                let i = choose|i: int| 0 <= i < all.len() && all[i] == x;
                assert(x == document::candidate(base, (i + 1) as nat));
            }
        }
        vstd::set_lib::lemma_len_subset(all.to_set(), taken.to_set());
    }
}

proof fn free_from_is_free(base: Seq<char>, taken: Seq<Seq<char>>, n: nat, left: nat)
    requires
        taken.len() < u64::MAX,
        n + left == taken.len() + 1,
        n >= 1,
        forall|m: nat| 1 <= m < n ==> taken.contains(#[trigger] document::candidate(base, m)),
    ensures
        !taken.contains(document::free_from(base, taken, n, left)),
    decreases left,
{
    if left == 0 {
        one_is_free(base, taken);
    } else if taken.contains(document::candidate(base, n)) {
        free_from_is_free(base, taken, n + 1, (left - 1) as nat);
    }
}

/// How many operations paths have.
pub open spec fn operation_count(ps: Seq<(Seq<char>, JsonView)>) -> nat
    decreases ps.len(),
{
    if ps.len() == 0 {
        0
    } else {
        operation_count(ps.drop_last()) + render::members_of(ps.last().1).len()
    }
}

proof fn method_names(path: Seq<char>, ms: Seq<(Seq<char>, JsonView)>, taken: Seq<Seq<char>>)
    requires
        taken.no_duplicates(),
        taken.len() + ms.len() <= u64::MAX,
    ensures
        ({
            let (named, after) = document::methods_named(path, ms, taken);
            &&& after.no_duplicates()
            &&& after.len() == taken.len() + ms.len()
            &&& taken == after.take(taken.len() as int)
            &&& named.len() == ms.len()
            &&& forall|j: int|
                0 <= j < ms.len() ==> (#[trigger] named[j]) == (
                    ms[j].0,
                    ms[j].1.with_text("operationId"@, after[taken.len() + j]),
                )
        }),
    decreases ms.len(),
{
    if ms.len() == 0 {
        assert(taken.take(taken.len() as int) =~= taken);
    } else {
        let rest = ms.drop_last();
        method_names(path, rest, taken);
        let (done, held) = document::methods_named(path, rest, taken);
        let (named, after) = document::methods_named(path, ms, taken);
        let base = ms.last().0 + document::normalized(text::split(path, '/'));
        let id = document::free_name(base, held);
        free_from_is_free(base, held, 1, held.len());
        assert(after == held.push(id));
        assert(after.take(taken.len() as int) =~= held.take(taken.len() as int));
        assert(after.no_duplicates()) by {
            assert forall|a: int, b: int| 0 <= a < after.len() && 0 <= b < after.len() && a != b implies after[a]
                != after[b] by {
                if a < held.len() {
                    assert(held.contains(held[a]));
                }
                if b < held.len() {
                    assert(held.contains(held[b]));
                }
            }
        }
        assert forall|j: int| 0 <= j < ms.len() implies (#[trigger] named[j]) == (
            ms[j].0,
            ms[j].1.with_text("operationId"@, after[taken.len() + j]),
        ) by {
            if j < rest.len() {
                assert(named[j] == done[j]);
                assert(rest[j] == ms[j]);
            }
        }
    }
}

/// Whether the `j`th operation of the `i`th path carries its name, which is the
/// one that was taken for it.
spec fn carries(
    ps: Seq<(Seq<char>, JsonView)>,
    named: Seq<(Seq<char>, JsonView)>,
    after: Seq<Seq<char>>,
    i: int,
    j: int,
) -> bool {
    let ms = render::members_of(ps[i].1);
    &&& render::members_of(named[i].1).len() == ms.len()
    &&& render::members_of(named[i].1)[j] == (
        ms[j].0,
        ms[j].1.with_text("operationId"@, after[operation_count(ps.take(i)) + j]),
    )
    &&& operation_count(ps.take(i)) + ms.len() <= after.len()
}

proof fn path_names(ps: Seq<(Seq<char>, JsonView)>)
    requires
        operation_count(ps) <= u64::MAX,
    ensures
        ({
            let (named, after) = document::paths_named(ps);
            &&& after.no_duplicates()
            &&& after.len() == operation_count(ps)
            &&& named.len() == ps.len()
            &&& forall|i: int, j: int|
                0 <= i < ps.len() && 0 <= j < render::members_of(ps[i].1).len()
                    ==> #[trigger] carries(ps, named, after, i, j)
        }),
    decreases ps.len(),
{
    if ps.len() > 0 {
        let rest = ps.drop_last();
        path_names(rest);
        let (done, held) = document::paths_named(rest);
        let (named, after) = document::paths_named(ps);
        let last = ps.last();
        if last.1 is Object {
            method_names(last.0, last.1->Object_0, held);
        }
        assert(held =~= after.take(held.len() as int));
        assert forall|i: int, j: int|
            0 <= i < ps.len() && 0 <= j < render::members_of(
                ps[i].1,
            ).len() implies #[trigger] carries(ps, named, after, i, j) by {
            if i < rest.len() {
                assert(rest[i] == ps[i]);
                assert(rest.take(i) =~= ps.take(i));
                assert(named[i] == done[i]);
                assert(carries(rest, done, held, i, j));
                assert(after[operation_count(ps.take(i)) + j] == held[operation_count(ps.take(i))
                    + j]);
            } else {
                assert(ps.take(i) =~= rest);
            }
        }
    }
}

proof fn counts_grow(ps: Seq<(Seq<char>, JsonView)>, i: int, k: int)
    requires
        0 <= i < k <= ps.len(),
    ensures
        operation_count(ps.take(i)) + render::members_of(ps[i].1).len() <= operation_count(
            ps.take(k),
        ),
    decreases k,
{
    assert(ps.take(k).drop_last() =~= ps.take(k - 1));
    assert(ps.take(k).last() == ps[k - 1]);
    if k > i + 1 {
        counts_grow(ps, i, k - 1);
    }
}

/// The name that an operation carries.
pub open spec fn name_of(paths: JsonView, i: int, j: int) -> JsonView {
    render::members_of(render::members_of(paths)[i].1)[j].1.at("operationId"@)
}

/// Every operation has a name, and no two operations share one.
pub proof fn operations_have_distinct_names(
    paths: JsonView,
    i: int,
    j: int,
    p: int,
    q: int,
)
    requires
        paths is Object,
        operation_count(render::members_of(paths)) <= u64::MAX,
        0 <= i < render::members_of(paths).len(),
        0 <= p < render::members_of(paths).len(),
        0 <= j < render::members_of(render::members_of(paths)[i].1).len(),
        0 <= q < render::members_of(render::members_of(paths)[p].1).len(),
        render::members_of(render::members_of(paths)[i].1)[j].1 is Object,
        render::members_of(render::members_of(paths)[p].1)[q].1 is Object,
        i != p || j != q,
    ensures
        name_of(document::named(paths), i, j) is Text,
        name_of(document::named(paths), i, j) != name_of(document::named(paths), p, q),
{
    let ps = render::members_of(paths);
    path_names(ps);
    let (named, after) = document::paths_named(ps);
    let at_i = operation_count(ps.take(i));
    let at_p = operation_count(ps.take(p));
    let a = render::members_of(ps[i].1)[j].1;
    let b = render::members_of(ps[p].1)[q].1;
    assert(carries(ps, named, after, i, j));
    assert(carries(ps, named, after, p, q));
    assert(render::members_of(named[i].1)[j].1 == a.with_text("operationId"@, after[at_i + j]));
    assert(render::members_of(named[p].1)[q].1 == b.with_text("operationId"@, after[at_p + q]));
    get_of_with(a, "operationId"@, JsonView::Text(after[at_i + j]), "operationId"@);
    get_of_with(b, "operationId"@, JsonView::Text(after[at_p + q]), "operationId"@);
    if i < p {
        counts_grow(ps, i, p);
    } else if p < i {
        counts_grow(ps, p, i);
    }
    assert(at_i + j != at_p + q);
}

// ---------------------------------------------------------------------------
// What single entries say
// ---------------------------------------------------------------------------

/// Whether a route is described as open without a session follows the table
/// that it came from: a route of the first table falls under the rule of the
/// whole document, which is a session, and every other says that none is needed.
pub proof fn security_follows_the_table(r: RouteView)
    ensures
        r.kind == RouteKind::Protected ==> routes::operation(r).get("security"@) is None
            && routes::operation(r).at("responses"@).get("401"@) is Some,
        r.kind != RouteKind::Protected ==> routes::operation(r).get("security"@) == Some(
            doc::session_optional(),
        ),
        doc::session_optional().first() == JsonView::object(),
{
    broadcast use {get_of_with, section_with};

    reveal(JsonView::and);
    reveal_strlit("tags");
    reveal_strlit("summary");
    reveal_strlit("responses");
    reveal_strlit("description");
    reveal_strlit("security");
    reveal_strlit("requestBody");
    assert("tags"@.len() == 4 && "summary"@.len() == 7 && "responses"@.len() == 9);
    assert("description"@.len() == 11 && "security"@.len() == 8);
    assert("requestBody"@.len() == 11);
}

/// The parameter that names a collection allows the collections there are, in
/// order, where any are known, and any name otherwise.
pub proof fn collections_constrain_the_parameter(collections: Seq<Seq<char>>)
    ensures
        doc::collection_param(collections).at("required"@) == JsonView::Bool(true),
        doc::collection_param(collections).at("schema"@).get("enum"@) == if collections.len() > 0 {
            Some(json::text_array(text::sorted(collections)))
        } else {
            None
        },
{
    broadcast use {get_of_with, section_with};

    reveal_strlit("name");
    reveal_strlit("in");
    reveal_strlit("required");
    reveal_strlit("schema");
    reveal_strlit("description");
    reveal_strlit("enum");
    reveal_strlit("type");
    assert("name"@.len() == 4 && "in"@.len() == 2 && "required"@.len() == 8);
    assert("schema"@.len() == 6 && "description"@.len() == 11);
    assert("enum"@[0] == 'e' && "type"@[0] == 't');
}

/// Describing a route replaces nothing: whatever operation was there stays, and
/// where there was none, the route's own is there now.
pub proof fn a_route_joins_the_others(
    paths: JsonView,
    r: RouteView,
    path: Seq<char>,
    method: Seq<char>,
)
    requires
        all_filed(paths),
    ensures
        document::with_route(paths, r).at(path).get(method) == match paths.at(path).get(method) {
            Some(op) => Some(op),
            None => if path == r.path && method == r.method {
                Some(routes::operation(r))
            } else {
                None
            },
        },
{
    let entry = match paths.get(r.path) {
        Some(e) => e,
        None => JsonView::object(),
    };
    if paths.get(r.path) is Some {
        let e = paths->Object_0;
        render::member_is_smaller(e, r.path);
        let i = choose|i: int| 0 <= i < e.len() && #[trigger] e[i] == (r.path, entry);
        assert(filed(e[i].1));
    }
    get_of_with(paths, r.path, entry.with(r.method, routes::operation(r)), path);
    get_of_with(entry, r.method, routes::operation(r), method);
}

// ---------------------------------------------------------------------------
// What the page shows
// ---------------------------------------------------------------------------

broadcast proof fn occurs_at_the_end(p: Seq<char>, a: Seq<char>)
    ensures
        #[trigger] text::occurs_in(p, a + p),
{
    let none = Seq::<char>::empty();
    occurs_in_itself(p);
    occurs_within(p, a, p, none);
    assert(a + p + none =~= a + p);
}

broadcast proof fn occurs_before(p: Seq<char>, s: Seq<char>, b: Seq<char>)
    requires
        text::occurs_in(p, s),
    ensures
        #[trigger] text::occurs_in(p, s + b),
{
    let none = Seq::<char>::empty();
    occurs_within(p, none, s, b);
    assert(none + s + b =~= s + b);
}

/// A row shows the name, the type and the description of what it is about, and marks
/// what has to be given.
pub proof fn what_a_row_shows(
    name: Seq<char>,
    required: bool,
    schema: Seq<char>,
    description: Seq<char>,
)
    ensures
        ({
            let shown = render::row(name, required, schema, description);
            &&& text::occurs_in(render::escaped(name), shown)
            &&& text::occurs_in(render::escaped(schema), shown)
            &&& text::occurs_in(render::escaped(description), shown)
        }),
        render::row(name, true, schema, description).len() == render::row(
            name,
            false,
            schema,
            description,
        ).len() + " <span class=\"req\">*</span>"@.len(),
{
    broadcast use {occurs_at_the_end, occurs_before};

    reveal_strlit(" <span class=\"req\">*</span>");
    reveal_strlit("</code> <span class=\"req\">*</span></td><td><code>");
    reveal_strlit("</code></td><td><code>");
}

/// A parameter is shown by its name, marked where it has to be given; every parameter of
/// an operation is shown, and a table is shown only where there is one.
pub proof fn what_parameters_show(ps: Seq<JsonView>, i: int, name: Seq<char>, required: bool)
    requires
        0 <= i < ps.len(),
        ps[i].get("name"@) == Some(JsonView::Text(name)),
        ps[i].get("required"@) == Some(JsonView::Bool(required)),
    ensures
        text::occurs_in(render::escaped(name), render::param_row(ps[i])),
        text::occurs_in(render::param_row(ps[i]), render::param_rows(ps)),
        text::occurs_in(render::param_rows(ps), render::param_table(JsonView::Array(ps))),
        render::param_table(JsonView::Array(Seq::empty())).len() == 0,
        exists|t: Seq<char>, d: Seq<char>|
            render::param_row(ps[i]) == #[trigger] render::row(name, required, t, d),
    decreases ps.len(),
{
    broadcast use {occurs_at_the_end, occurs_before};

    what_a_row_shows(
        name,
        required,
        render::type_text(ps[i].at("schema"@)),
        ps[i].at("description"@).text_or(Seq::empty()),
    );
    if i < ps.len() - 1 {
        let head = ps.drop_last();
        assert(head[i] == ps[i]);
        what_parameters_show(head, i, name, required);
    }
    assert(render::param_row(ps[i]) == render::row(
        name,
        required,
        render::type_text(ps[i].at("schema"@)),
        ps[i].at("description"@).text_or(Seq::empty()),
    ));
}

/// Every member of a body has a row, by its name and its type, marked where it is needed.
pub proof fn what_bodies_show(fields: Seq<(Seq<char>, JsonView)>, required: JsonView, i: int)
    requires
        0 <= i < fields.len(),
    ensures
        exists|d: Seq<char>|
            text::occurs_in(
                #[trigger] render::row(
                    fields[i].0,
                    render::needs(required, fields[i].0),
                    render::type_text(fields[i].1),
                    d,
                ),
                render::field_rows(fields, required),
            ),
    decreases fields.len(),
{
    broadcast use {occurs_at_the_end, occurs_before};

    let own = render::row(
        fields[i].0,
        render::needs(required, fields[i].0),
        render::type_text(fields[i].1),
        fields[i].1.at("description"@).text_or(Seq::empty()),
    );
    if i < fields.len() - 1 {
        let head = fields.drop_last();
        assert(head[i] == fields[i]);
        what_bodies_show(head, required, i);
        let d = choose|d: Seq<char>|
            text::occurs_in(
                #[trigger] render::row(
                    fields[i].0,
                    render::needs(required, fields[i].0),
                    render::type_text(fields[i].1),
                    d,
                ),
                render::field_rows(head, required),
            );
        occurs_before(
            render::row(
                fields[i].0,
                render::needs(required, fields[i].0),
                render::type_text(fields[i].1),
                d,
            ),
            render::field_rows(head, required),
            render::row(
                fields.last().0,
                render::needs(required, fields.last().0),
                render::type_text(fields.last().1),
                fields.last().1.at("description"@).text_or(Seq::empty()),
            ),
        );
    } else {
        assert(text::occurs_in(own, render::field_rows(fields, required)));
    }
}

/// Every response has a row, by its code and its description, and none is marked as
/// needed.
pub proof fn what_responses_show(rs: Seq<(Seq<char>, JsonView)>, i: int, said: Seq<char>)
    requires
        0 <= i < rs.len(),
        rs[i].1.get("description"@) == Some(JsonView::Text(said)),
    ensures
        text::occurs_in(
            render::row(rs[i].0, false, render::response_type(rs[i].1), said),
            render::response_rows(rs),
        ),
    decreases rs.len(),
{
    broadcast use {occurs_at_the_end, occurs_before};

    if i < rs.len() - 1 {
        let head = rs.drop_last();
        assert(head[i] == rs[i]);
        what_responses_show(head, i, said);
    }
}

/// An operation is shown by its path and its method in capitals, with what it says of
/// itself, its parameters and its responses.
pub proof fn what_an_operation_shows(
    path: Seq<char>,
    method: Seq<char>,
    op: JsonView,
    said: Seq<char>,
    rs: Seq<(Seq<char>, JsonView)>,
)
    ensures
        ({
            let shown = render::operation_shown(path, method, op);
            &&& text::occurs_in(render::escaped(path), shown)
            &&& text::occurs_in(render::escaped(text::uppered(method)), shown)
            &&& op.get("summary"@) == Some(JsonView::Text(said)) ==> text::occurs_in(
                render::escaped(said),
                shown,
            )
            &&& op.get("description"@) == Some(JsonView::Text(said)) ==> text::occurs_in(
                render::escaped(said),
                shown,
            )
            &&& text::occurs_in(render::param_table(op.at("parameters"@)), shown)
            &&& op.get("responses"@) == Some(JsonView::Object(rs)) ==> text::occurs_in(
                render::response_rows(render::by_name(rs)),
                shown,
            )
        }),
{
    broadcast use {occurs_at_the_end, occurs_before};

    let summary = render::between("<p class=\"sum\">"@, op.at("summary"@), "</p>"@);
    let description = render::between("<p class=\"desc\">"@, op.at("description"@), "</p>"@);
    let table = render::response_table(op.at("responses"@));
    let shown = render::operation_shown(path, method, op);
    assert(text::occurs_in(summary, shown));
    assert(text::occurs_in(description, shown));
    assert(text::occurs_in(table, shown));
    if op.get("summary"@) == Some(JsonView::Text(said)) {
        assert(text::occurs_in(render::escaped(said), summary));
        occurs_through(render::escaped(said), summary, shown);
    }
    if op.get("description"@) == Some(JsonView::Text(said)) {
        assert(text::occurs_in(render::escaped(said), description));
        occurs_through(render::escaped(said), description, shown);
    }
    if op.get("responses"@) == Some(JsonView::Object(rs)) {
        let rows = render::response_rows(render::by_name(rs));
        assert(text::occurs_in(rows, table));
        occurs_through(rows, table, shown);
    }
}

proof fn occurs_through(p: Seq<char>, q: Seq<char>, s: Seq<char>)
    requires
        text::occurs_in(p, q),
        text::occurs_in(q, s),
    ensures
        text::occurs_in(p, s),
{
    let i = choose|i: int| text::occurs_at(q, s, i);
    let a = s.take(i);
    let b = s.skip(i + q.len());
    occurs_within(p, a, q, b);
    assert(a + q + b =~= s);
}

/// The page is headed by the title and the version that the document has.
pub proof fn what_the_page_is_headed_by(d: JsonView, title: Seq<char>, version: Seq<char>)
    requires
        d.at("info"@).get("title"@) == Some(JsonView::Text(title)),
        d.at("info"@).get("version"@) == Some(JsonView::Text(version)),
    ensures
        text::occurs_in("<h1>"@ + render::escaped(title), render::page(d)),
        text::occurs_in(render::escaped(version), render::page(d)),
{
    broadcast use {occurs_at_the_end, occurs_before};

    let head = render::PAGE_HEAD@ + render::escaped(title) + " "@ + render::escaped(version)
        + render::PAGE_STYLE@;
    let h = "<h1>"@ + render::escaped(title);
    assert(head + "<h1>"@ + render::escaped(title) =~= head + h);
    assert(text::occurs_in(h, head + h));
}

// ---------------------------------------------------------------------------
// What the document says of routes and of itself
// ---------------------------------------------------------------------------

/// A route of a plugin is described under the heading of its table. It can find no hook,
/// it can refuse those without a session where it needs one, and it can refuse a body
/// where it takes it whole; only what is called by `POST` takes one.
pub proof fn what_is_said_of_a_route(r: RouteView)
    ensures
        ({
            let op = routes::operation(r);
            &&& r.kind == RouteKind::Protected ==> op.at("tags"@) == doc::one("plugin"@)
            &&& r.kind == RouteKind::Unprotected ==> op.at("tags"@) == doc::one(
                "plugin (public)"@,
            )
            &&& r.kind == RouteKind::Rest ==> op.at("tags"@) == doc::one("plugin (rest)"@)
            &&& op.get("summary"@) == Some(
                JsonView::Text("Plugin route → `"@ + r.handler + "`"@),
            )
            &&& forall|c: Seq<char>|
                (#[trigger] op.at("responses"@).get(c)) is Some <==> c == "200"@ || c == "404"@ || (
                r.kind == RouteKind::Protected && c == "401"@) || (r.kind == RouteKind::Rest && (c
                    == "400"@ || c == "413"@))
            &&& op.get("requestBody"@) is Some <==> r.method == "post"@
            &&& r.method == "post"@ ==> op.at("requestBody"@).at("required"@) == JsonView::Bool(
                false,
            )
            &&& r.method == "post"@ ==> forall|m: Seq<char>|
                (#[trigger] op.at("requestBody"@).at("content"@).get(m)) is Some <==> m == (
                if r.kind == RouteKind::Rest {
                    "*/*"@
                } else {
                    "multipart/form-data"@
                })
        }),
        r.kind == RouteKind::Protected <==> r.kind.table() == "extra_route"@,
        r.kind == RouteKind::Unprotected <==> r.kind.table() == "extra_unprotected_route"@,
        r.kind == RouteKind::Rest <==> r.kind.table() == "extra_rest_route"@,
{
    broadcast use {get_of_with, section_with};

    reveal_strlit("tags");
    reveal_strlit("summary");
    reveal_strlit("responses");
    reveal_strlit("description");
    reveal_strlit("security");
    reveal_strlit("requestBody");
    reveal_strlit("required");
    reveal_strlit("content");
    reveal_strlit("extra_route");
    reveal_strlit("extra_unprotected_route");
    reveal_strlit("extra_rest_route");
    assert("tags"@.len() == 4 && "summary"@.len() == 7 && "responses"@.len() == 9);
    assert("description"@.len() == 11 && "security"@.len() == 8 && "requestBody"@.len() == 11);
    assert("required"@.len() == 8 && "content"@.len() == 7);
    assert("description"@[0] != "requestBody"@[0]);
    assert("extra_route"@.len() == 11 && "extra_unprotected_route"@.len() == 23
        && "extra_rest_route"@.len() == 16);
}

/// An entry declares a route where it has a path, one of the two methods and a handler,
/// in this order.
pub proof fn which_entries_declare_routes(
    path: Seq<char>,
    method: Seq<char>,
    handler: Seq<char>,
    kind: RouteKind,
)
    requires
        !path.contains(':'),
        !method.contains(':'),
        !handler.contains(':'),
    ensures
        ({
            let r = routes::declared(path + seq![':'] + (method + seq![':'] + handler), kind);
            &&& r is Some <==> path.len() > 0 && handler.len() > 0 && (method == "get"@ || method
                == "post"@)
            &&& r is Some ==> r->Some_0 == (RouteView { path, method, handler, kind })
        }),
        routes::declared(path + seq![':'] + method, kind) is None,
        routes::declared(path, kind) is None,
{
    text::split_of_two(path, method + seq![':'] + handler, ':');
    text::split_of_two(method, handler, ':');
    text::split_of_two(handler, path, ':');
    text::split_of_two(path, method, ':');
    assert(text::split(path + seq![':'] + (method + seq![':'] + handler), ':') =~= seq![
        path,
        method,
        handler,
    ]);
    assert(text::split(path + seq![':'] + method, ':') =~= seq![path, method]);
}

/// Routes are listed by their paths and then by their methods, and those in one place by
/// their tables: routes for those who are signed in, open ones, and those that take their
/// bodies whole.
pub proof fn how_routes_are_listed(
    internals: crate::item::ItemView,
    s: Seq<RouteView>,
    i: int,
    j: int,
)
    requires
        routes::lists_routes(internals, s),
        0 <= i < j < s.len(),
    ensures
        !text::precedes(s[j].path, s[i].path),
        s[i].path == s[j].path ==> !text::precedes(s[j].method, s[i].method),
        s[i].path == s[j].path && s[i].method == s[j].method ==> (s[i].kind == RouteKind::Protected
            || s[j].kind == RouteKind::Rest || s[i].kind == s[j].kind),
        s[i] != s[j],
{
}

/// The document says by which rules it is written, where the API is served, that a
/// session is needed where nothing else is said, and that a session is a cookie.
pub proof fn what_the_document_says_of_itself(
    url: Seq<char>,
    collections: Seq<Seq<char>>,
    rs: Seq<RouteView>,
    admin_only: bool,
)
    ensures
        ({
            let d = document::document(url, collections, rs, admin_only);
            &&& d.get("openapi"@) == Some(JsonView::Text("3.1.0"@))
            &&& d.get("paths"@) == Some(document::all_paths(collections, rs, admin_only))
            &&& d.at("servers"@).first().get("url"@) == Some(
                JsonView::Text(
                    if url.len() == 0 {
                        "/"@
                    } else {
                        url
                    },
                ),
            )
            &&& d.at("security"@) == JsonView::Array(seq![doc::session_required()])
            &&& d.at("info"@).get("title"@) == Some(JsonView::Text("Isabelle core API"@))
            &&& d.at("info"@).get("version"@) == Some(JsonView::Text(document::VERSION@))
            &&& d.at("components"@).get("schemas"@) == Some(doc::schemas())
        }),
        ({
            let way = document::security_schemes().at("sessionCookie"@);
            &&& way.get("type"@) == Some(JsonView::Text("apiKey"@))
            &&& way.get("in"@) == Some(JsonView::Text("cookie"@))
            &&& way.get("name"@) == Some(JsonView::Text("id"@))
        }),
{
    broadcast use {get_of_with, section_with};

    reveal(JsonView::and);
    reveal_strlit("openapi");
    reveal_strlit("info");
    reveal_strlit("servers");
    reveal_strlit("security");
    reveal_strlit("tags");
    reveal_strlit("paths");
    reveal_strlit("components");
    reveal_strlit("title");
    reveal_strlit("version");
    reveal_strlit("description");
    reveal_strlit("license");
    reveal_strlit("type");
    reveal_strlit("in");
    reveal_strlit("name");
    reveal_strlit("securitySchemes");
    reveal_strlit("schemas");
    assert("openapi"@.len() == 7 && "info"@.len() == 4 && "servers"@.len() == 7
        && "security"@.len() == 8 && "tags"@.len() == 4 && "paths"@.len() == 5
        && "components"@.len() == 10);
    assert("openapi"@[0] != "servers"@[0] && "info"@[0] != "tags"@[0]);
    assert("title"@.len() == 5 && "version"@.len() == 7 && "description"@.len() == 11
        && "license"@.len() == 7 && "version"@[0] != "license"@[0]);
    assert("type"@.len() == 4 && "in"@.len() == 2 && "name"@.len() == 4 && "type"@[0]
        != "name"@[0]);
    assert("securitySchemes"@.len() == 15 && "schemas"@.len() == 7);
    assert(JsonView::array().and(doc::session_required())->Array_0 =~= seq![
        doc::session_required(),
    ]);
}

/// The name of an operation is its method and its path, with an underscore before every
/// segment and for every character that a name cannot hold; where it is taken, a number
/// from two on stands behind it.
pub proof fn how_operations_are_named(base: Seq<char>, taken: Seq<Seq<char>>, n: nat, c: char)
    ensures
        !taken.contains(base) ==> document::free_name(base, taken) == base,
        taken.contains(base) && !taken.contains(base + "_2"@) ==> document::free_name(base, taken)
            == base + "_2"@,
        n >= 2 ==> document::candidate(base, n) == base + "_"@ + text::decimal(n),
        document::name_char(c) == c || document::name_char(c) == '_',
        document::name_char(c) == c <==> ('0' <= c && c <= '9') || ('A' <= c && c <= 'Z') || ('a'
            <= c && c <= 'z') || c == '_',
{
    reveal_strlit("_2");
    reveal_strlit("_");
    reveal_with_fuel(document::free_from, 3);
    assert("_"@ + text::decimal(2) =~= "_2"@);
    assert(base + "_"@ + text::decimal(2) =~= base + "_2"@);
    if taken.contains(base) {
        assert(taken.len() > 0);
    }
}

/// Segments of a path without a character are left out of a name, and every other comes
/// behind an underscore.
pub proof fn how_paths_are_named(segments: Seq<Seq<char>>, segment: Seq<char>)
    ensures
        document::normalized(Seq::empty()).len() == 0,
        segment.len() == 0 ==> document::normalized(segments.push(segment))
            == document::normalized(segments),
        segment.len() > 0 ==> ({
            let all = document::normalized(segments.push(segment));
            let before = document::normalized(segments);
            &&& all.len() == before.len() + 1 + segment.len()
            &&& all.take(before.len() as int) == before
            &&& all[before.len() as int] == '_'
            &&& forall|i: int|
                0 <= i < segment.len() ==> (#[trigger] all[before.len() + 1 + i])
                    == document::name_char(segment[i])
        }),
{
    assert(segments.push(segment).drop_last() =~= segments);
    let before = document::normalized(segments);
    let all = document::normalized(segments.push(segment));
    if segment.len() > 0 {
        assert(all.take(before.len() as int) =~= before);
    }
}

/// A route is declared where an entry of its own table says so; without a table there is
/// none.
pub proof fn which_routes_are_declared(internals: crate::item::ItemView, r: RouteView)
    ensures
        routes::declares(internals, r) <==> internals.strstrs.contains_key(r.kind.table())
            && exists|k: Seq<char>|
            internals.strstrs[r.kind.table()].contains_key(k) && #[trigger] routes::declared(
                internals.strstrs[r.kind.table()][k],
                r.kind,
            ) == Some(r),
{
    let t = routes::table_of(internals, r.kind);
    if routes::declares(internals, r) {
        let k = choose|k: Seq<char>| #[trigger] routes::entry_declares(t, k, r);
        assert(routes::declared(internals.strstrs[r.kind.table()][k], r.kind) == Some(r));
    }
    if internals.strstrs.contains_key(r.kind.table()) && exists|k: Seq<char>|
        internals.strstrs[r.kind.table()].contains_key(k) && #[trigger] routes::declared(
            internals.strstrs[r.kind.table()][k],
            r.kind,
        ) == Some(r) {
        let k = choose|k: Seq<char>|
            internals.strstrs[r.kind.table()].contains_key(k) && #[trigger] routes::declared(
                internals.strstrs[r.kind.table()][k],
                r.kind,
            ) == Some(r);
        assert(routes::entry_declares(t, k, r));
    }
}

/// What describes a deployment is written by its rules, and its paths are those of the
/// core with the routes that the deployment declares among them.
pub proof fn what_describes_a_deployment(
    d: JsonView,
    internals: crate::item::ItemView,
    collections: Seq<Seq<char>>,
    url: Seq<char>,
    private: bool,
)
    requires
        document::describes(d, internals, collections, url, private),
    ensures
        d.get("openapi"@) == Some(JsonView::Text("3.1.0"@)),
        exists|rs: Seq<RouteView>| #[trigger]
            routes::lists_routes(internals, rs) && d.get("paths"@) == Some(
                document::all_paths(collections, rs, private),
            ),
{
    let rs = choose|rs: Seq<RouteView>| #[trigger]
        routes::lists_routes(internals, rs) && d == document::document(
            url,
            collections,
            rs,
            private,
        );
    what_the_document_says_of_itself(url, collections, rs, private);
}

} // verus!
