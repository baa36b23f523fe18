//! The description that the server gives of itself.
use isabelle_core::collections::StrMap;
use isabelle_core::item::Item;
use isabelle_core::json::Json;
use isabelle_core::server::openapi::render::{esc, render_html, render_operation, type_of};
use isabelle_core::server::openapi::{
    build_spec, openapi_docs, openapi_json, plugin_routes, RouteKind, DOCS_PATH, OPENAPI_PATH,
};

fn internals_with(category: &str, specs: &[&str]) -> Item {
    let mut it = Item::new();
    let mut inner: StrMap<String> = StrMap::new();
    for (i, s) in specs.iter().enumerate() {
        inner.insert(i.to_string(), s.to_string());
    }
    it.strstrs.insert(category.to_string(), inner);
    it
}

fn internals_of(tables: &[(&str, &str)]) -> Item {
    let mut it = Item::new();
    for (cat, spec) in tables {
        let mut inner: StrMap<String> = StrMap::new();
        inner.insert("1".to_string(), spec.to_string());
        it.strstrs.insert(cat.to_string(), inner);
    }
    it
}

/// What stands at the end of a path of keys, if anything does.
fn find<'a>(j: &'a Json, keys: &[&str]) -> Option<&'a Json> {
    let mut at = j;
    for k in keys {
        at = at.get(k)?;
    }
    Some(at)
}

fn is_object(j: Option<&Json>) -> bool {
    matches!(j, Some(Json::Object(_)))
}

fn text<'a>(j: Option<&'a Json>) -> Option<&'a str> {
    match j {
        Some(Json::Text(t)) => Some(t.as_str()),
        _ => None,
    }
}

fn elements<'a>(j: Option<&'a Json>) -> &'a [Json] {
    match j {
        Some(Json::Array(v)) => v.as_slice(),
        _ => panic!("not an array"),
    }
}

fn entries<'a>(j: Option<&'a Json>) -> &'a [(String, Json)] {
    match j {
        Some(Json::Object(v)) => v.as_slice(),
        _ => panic!("not an object"),
    }
}

fn is_null(j: Option<&Json>) -> bool {
    matches!(j, None | Some(Json::Null))
}

fn is_empty_object(j: &Json) -> bool {
    match j {
        Json::Object(v) => v.is_empty(),
        _ => false,
    }
}

fn texts(j: Option<&Json>) -> Vec<String> {
    elements(j)
        .iter()
        .map(|t| text(Some(t)).unwrap().to_string())
        .collect()
}

#[test]
fn routes_are_read_from_all_three_tables() {
    let it = internals_of(&[
        ("extra_route", "/a:get:handler_a"),
        ("extra_unprotected_route", "/b:post:handler_b"),
        ("extra_rest_route", "/c:post:handler_c"),
    ]);

    let routes = plugin_routes(&it);
    assert_eq!(routes.len(), 3);
    assert_eq!(routes[0].path, "/a");
    assert_eq!(routes[0].kind, RouteKind::Protected);
    assert_eq!(routes[0].method, "get");
    assert_eq!(routes[1].kind, RouteKind::Unprotected);
    assert_eq!(routes[2].kind, RouteKind::Rest);
    assert_eq!(routes[2].handler, "handler_c");
}

#[test]
fn only_the_specs_run_would_register_are_documented() {
    let it = internals_with(
        "extra_route",
        &[
            "/ok:get:handler",
            "/upper:GET:handler",
            "/nomethod:handler",
            ":get:handler",
            "/nohandler:get:",
            "/put:put:handler",
        ],
    );

    let routes = plugin_routes(&it);
    assert_eq!(routes.len(), 1, "documented: {:?}", routes);
    assert_eq!(routes[0].path, "/ok");
}

#[test]
fn route_order_is_stable() {
    let it = internals_with(
        "extra_route",
        &["/c:get:h", "/a:get:h", "/b:post:h", "/a:post:h"],
    );
    let paths: Vec<(String, String)> = plugin_routes(&it)
        .into_iter()
        .map(|r| (r.path, r.method))
        .collect();
    assert_eq!(
        paths,
        vec![
            ("/a".to_string(), "get".to_string()),
            ("/a".to_string(), "post".to_string()),
            ("/b".to_string(), "post".to_string()),
            ("/c".to_string(), "get".to_string()),
        ]
    );
}

#[test]
fn plugin_routes_join_the_core_ones() {
    let routes = plugin_routes(&internals_with(
        "extra_unprotected_route",
        &["/plugin/ping:get:ping"],
    ));
    let spec = build_spec(
        "https://app.example.com",
        &["user".to_string()],
        &routes,
        false,
    );

    assert!(is_object(find(&spec, &["paths", "/itm/list", "get"])));
    assert_eq!(
        text(find(&spec, &["paths", "/plugin/ping", "get", "summary"])).unwrap(),
        "Plugin route → `ping`"
    );
    assert_eq!(
        text(elements(find(&spec, &["servers"]))[0].get("url")),
        Some("https://app.example.com")
    );
}

#[test]
fn one_path_can_carry_both_verbs() {
    let routes = plugin_routes(&internals_with(
        "extra_rest_route",
        &["/api/thing:get:read", "/api/thing:post:write"],
    ));
    let spec = build_spec("", &[], &routes, false);
    assert!(is_object(find(&spec, &["paths", "/api/thing", "get"])));
    assert!(is_object(find(&spec, &["paths", "/api/thing", "post"])));
}

#[test]
fn security_follows_the_route_table() {
    let it = internals_of(&[
        ("extra_route", "/private:get:h"),
        ("extra_unprotected_route", "/public:get:h"),
    ]);
    let spec = build_spec("", &[], &plugin_routes(&it), false);

    assert!(is_null(find(&spec, &["paths", "/private", "get", "security"])));
    assert!(is_object(find(
        &spec,
        &["paths", "/private", "get", "responses", "401"]
    )));

    assert!(
        is_empty_object(&elements(find(&spec, &["paths", "/public", "get", "security"]))[0]),
        "an unprotected route was documented as needing a session"
    );
}

fn collection_parameter(spec: &Json) -> &Json {
    elements(find(spec, &["paths", "/itm/list", "get", "parameters"]))
        .iter()
        .find(|p| text(p.get("name")) == Some("collection"))
        .expect("no collection parameter")
}

#[test]
fn collections_constrain_the_collection_parameter() {
    let spec = build_spec("", &["user".to_string(), "node".to_string()], &[], false);
    let collection = collection_parameter(&spec);
    assert_eq!(
        texts(find(collection, &["schema", "enum"])),
        vec!["node", "user"]
    );
    assert!(matches!(collection.get("required"), Some(Json::Bool(true))));

    let empty = build_spec("", &[], &[], false);
    let collection = collection_parameter(&empty);
    assert!(is_null(find(collection, &["schema", "enum"])));
}

#[test]
fn every_operation_has_a_unique_id() {
    let routes = plugin_routes(&internals_with(
        "extra_route",
        &["/a-b:get:h", "/a_b:get:h", "/a/b:post:h"],
    ));
    let spec = build_spec("", &["user".to_string()], &routes, false);

    let mut ids: Vec<&str> = Vec::new();
    for (path, methods) in entries(find(&spec, &["paths"])) {
        for (method, op) in entries(Some(methods)) {
            let id = text(op.get("operationId"))
                .unwrap_or_else(|| panic!("{} {} has no operationId", method, path));
            ids.push(id);
        }
    }
    assert_eq!(
        text(find(&spec, &["paths", "/a/b", "post", "operationId"])),
        Some("post_a_b")
    );

    let total = ids.len();
    ids.sort();
    ids.dedup();
    assert_eq!(ids.len(), total, "two operations share an operationId");
}

fn collect_refs(v: &Json, into: &mut Vec<String>) {
    match v {
        Json::Object(map) => {
            for (k, val) in map {
                if k == "$ref" {
                    if let Some(s) = text(Some(val)) {
                        into.push(s.to_string());
                    }
                }
                collect_refs(val, into);
            }
        }
        Json::Array(items) => items.iter().for_each(|i| collect_refs(i, into)),
        _ => {}
    }
}

#[test]
fn every_ref_resolves() {
    let routes = plugin_routes(&internals_with("extra_route", &["/x:post:h"]));
    let spec = build_spec("https://example.org", &["user".to_string()], &routes, false);
    let schemas = find(&spec, &["components", "schemas"]).unwrap();

    let mut refs = Vec::new();
    collect_refs(&spec, &mut refs);
    assert!(
        !refs.is_empty(),
        "the document has no schema references at all"
    );
    for r in refs {
        let name = r
            .strip_prefix("#/components/schemas/")
            .unwrap_or_else(|| panic!("unexpected reference form: {}", r));
        assert!(schemas.get(name).is_some(), "dangling reference: {}", r);
    }
}

#[test]
fn the_rendered_page_escapes_what_it_prints() {
    let routes = plugin_routes(&internals_with(
        "extra_unprotected_route",
        &["/x<script>alert(1)</script>:get:h"],
    ));
    let html = render_html(&build_spec("", &[], &routes, false));
    assert!(
        !html.contains("<script>"),
        "an injected tag survived into the page"
    );
    assert!(html.contains("&lt;script&gt;"));
}

#[test]
fn the_rendered_page_lists_every_operation() {
    let routes = plugin_routes(&internals_with("extra_route", &["/plugin/x:post:h"]));
    let spec = build_spec("", &["user".to_string()], &routes, false);
    let html = render_html(&spec);

    for (path, methods) in entries(find(&spec, &["paths"])) {
        for (method, _) in entries(Some(methods)) {
            assert!(
                html.contains(&esc(path)),
                "{} {} is missing from the page",
                method,
                path
            );
        }
    }
    assert!(!html.contains("<script"));
    assert!(!html.contains("src="));
    assert!(!html.contains("href=\"http"));
}

fn account(admin: bool) -> Option<Item> {
    let mut itm = Item::new();
    itm.id = if admin { 1 } else { 2 };
    itm.set_bool("role_is_active", true);
    if admin {
        itm.set_bool("role_is_admin", true);
    }
    Some(itm)
}

#[test]
fn anybody_may_read_the_description_unless_it_is_private() {
    let internals = Item::new();
    let collections = vec!["user".to_string()];
    let spec = openapi_json(false, false, &None, &internals, &collections, "https://x.test")
        .expect("the description was withheld");
    assert_eq!(text(spec.get("openapi")), Some("3.1.0"));
    assert!(is_object(find(&spec, &["paths", "/login", "post"])));
    assert_eq!(
        texts(find(collection_parameter(&spec), &["schema", "enum"])),
        vec!["user"]
    );
    assert!(is_empty_object(
        &elements(find(&spec, &["paths", OPENAPI_PATH, "get", "security"]))[0]
    ));
    assert!(openapi_docs(false, false, &None, &internals, &collections, "").is_ok());

    let refused = |signed_in: bool, user: &Option<Item>| {
        let j = openapi_json(true, signed_in, user, &internals, &collections, "").err();
        let h = openapi_docs(true, signed_in, user, &internals, &collections, "").err();
        assert_eq!(j, h);
        j
    };
    assert_eq!(refused(false, &None), Some(401));
    assert_eq!(refused(true, &account(false)), Some(403));
    assert_eq!(refused(true, &account(true)), None);

    let spec = openapi_json(true, true, &account(true), &internals, &collections, "")
        .ok()
        .unwrap();
    assert!(is_null(find(&spec, &["paths", OPENAPI_PATH, "get", "security"])));
    assert!(is_object(find(
        &spec,
        &["paths", DOCS_PATH, "get", "responses", "403"]
    )));
}

#[test]
fn types_are_named_briefly() {
    let list = Json::object()
        .with_text("type", "array")
        .with("items", Json::object().with_text("type", "string"));
    assert_eq!(type_of(&list), "string[]");
    assert_eq!(type_of(&Json::object()), "");
    assert_eq!(esc("a<b>&\"c\""), "a&lt;b&gt;&amp;&quot;c&quot;");
}

#[test]
fn a_plugin_does_not_speak_over_the_core() {
    let routes = plugin_routes(&internals_with(
        "extra_unprotected_route",
        &["/login:post:mine", "/login:get:form"],
    ));
    let spec = build_spec("", &[], &routes, false);
    assert_eq!(texts(find(&spec, &["paths", "/login", "post", "tags"])), vec!["auth"]);
    assert_eq!(
        text(find(&spec, &["paths", "/login", "get", "summary"])).unwrap(),
        "Plugin route \u{2192} `form`"
    );
}

#[test]
fn members_keep_the_order_they_were_put_in() {
    let routes = plugin_routes(&internals_with("extra_rest_route", &["/a/first:get:read"]));
    let spec = build_spec("https://x.test", &[], &routes, false);
    let names: Vec<&str> = entries(Some(&spec)).iter().map(|e| e.0.as_str()).collect();
    assert_eq!(&names[..2], &["openapi", "info"]);
    let paths = entries(find(&spec, &["paths"]));
    assert_eq!(paths[paths.len() - 1].0, "/a/first");
}

fn place_of(page: &str, part: &str) -> usize {
    page.find(part).unwrap_or_else(|| panic!("{part} is not on the page"))
}

fn described(tag: &str, codes: &[&str]) -> Json {
    let mut responses = Json::object();
    for code in codes {
        responses = responses.with(code, Json::object().with("description", Json::text("said")));
    }
    Json::object()
        .with("tags", Json::array().and(Json::text(tag)))
        .with("responses", responses)
}

#[test]
fn responses_stand_in_the_order_of_their_codes() {
    let op = described("t", &["404", "401", "200"]);
    let row = |code: &str| {
        format!("<tr><td><code>{code}</code></td><td><code></code></td><td>said</td></tr>")
    };
    let table = format!(
        "<table><tr><th>Status</th><th>Type</th><th></th></tr>{}{}{}</table>",
        row("200"),
        row("401"),
        row("404")
    );
    assert!(render_operation("/x", "get", &op).contains(&table));

    let routes = plugin_routes(&internals_with("extra_rest_route", &["/hook:post:h"]));
    let spec = build_spec("", &[], &routes, false);
    let hook = find(&spec, &["paths", "/hook", "post"]).unwrap();
    let page = render_operation("/hook", "post", hook);
    let codes: Vec<usize> = ["200", "400", "404", "413"]
        .iter()
        .map(|c| place_of(&page, &format!("<code>{c}</code>")))
        .collect();
    assert!(codes.windows(2).all(|w| w[0] < w[1]), "{codes:?}");
}

#[test]
fn a_section_stands_in_the_order_of_paths_and_methods() {
    let paths = Json::object()
        .with("/b", Json::object().with("get", described("t", &[])))
        .with(
            "/a",
            Json::object()
                .with("post", described("t", &[]))
                .with("get", described("t", &[]))
                .with("put", described("other", &[])),
        );
    let doc = Json::object()
        .with("tags", Json::array().and(Json::object().with("name", Json::text("t"))))
        .with("paths", paths);
    let page = render_html(&doc);
    let at = |m: &str, p: &str| place_of(&page, &format!("{m}</span> {p}</div>"));
    assert!(at("GET", "/a") < at("POST", "/a"));
    assert!(at("POST", "/a") < at("GET", "/b"));
    assert!(!page.contains("PUT</span>"));

    let whole = render_html(&build_spec("", &[], &[], false));
    assert!(place_of(&whole, "</span> /auth/providers<") < place_of(&whole, "</span> /is_logged_in<"));
    assert!(place_of(&whole, "</span> /is_logged_in<") < place_of(&whole, "</span> /login<"));
}
