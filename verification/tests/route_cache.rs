//! The routing tables.
use isabelle_core::collections::StrMap;
use isabelle_core::item::Item;
use isabelle_core::startup::{registrations, ticks, verb_of, Verb};
use isabelle_core::state::data::Data;
use isabelle_core::state::route_cache::{hooks_to_call, RouteCache};

fn table(entries: &[(&str, &str)]) -> StrMap<String> {
    let mut t: StrMap<String> = StrMap::new();
    for (k, v) in entries {
        t.insert(k.to_string(), v.to_string());
    }
    t
}

fn item_with(category: &str, entries: &[(&str, &str)]) -> Item {
    let mut it = Item::new();
    it.strstrs.insert(category.to_string(), table(entries));
    it
}

fn item_multi(categories: &[(&str, &[(&str, &str)])]) -> Item {
    let mut it = Item::new();
    for (cat, entries) in categories {
        it.strstrs.insert(cat.to_string(), table(entries));
    }
    it
}

#[test]
fn empty_internals_yields_empty_cache() {
    let cache = RouteCache::from_internals(&Item::new());
    assert!(cache.url_routes.is_empty());
    assert!(cache.unprotected_url_routes.is_empty());
    assert!(cache.rest_routes.is_empty());
    assert!(cache.item_pre_edit.is_empty());
    assert!(cache.item_pre_edit_wildcard.is_empty());
    assert!(cache.item_post_edit.is_empty());
    assert!(cache.item_post_edit_wildcard.is_empty());
}

#[test]
fn extra_route_parses_path_to_handler_ignoring_method() {
    let it = item_with(
        "extra_route",
        &[
            ("1", "/system/stat:get:plugin_stat"),
            ("2", "/system/log:post:plugin_log"),
        ],
    );
    let c = RouteCache::from_internals(&it);
    assert_eq!(c.url_routes.get("/system/stat").map(String::as_str), Some("plugin_stat"));
    assert_eq!(c.url_routes.get("/system/log").map(String::as_str), Some("plugin_log"));
    assert!(c.unprotected_url_routes.is_empty());
    assert!(c.rest_routes.is_empty());
}

#[test]
fn extra_unprotected_route_and_rest_route_use_separate_maps() {
    let it = item_multi(&[
        ("extra_unprotected_route", &[("1", "/public/x:get:pub_x")]),
        ("extra_rest_route", &[("1", "/api/y:post:rest_y")]),
    ]);
    let c = RouteCache::from_internals(&it);
    assert!(c.url_routes.is_empty());
    assert_eq!(c.unprotected_url_routes.get("/public/x").map(String::as_str), Some("pub_x"));
    assert_eq!(c.rest_routes.get("/api/y").map(String::as_str), Some("rest_y"));
}

#[test]
fn item_pre_edit_hook_splits_collection_specific_and_wildcard() {
    let it = item_with(
        "item_pre_edit_hook",
        &[
            ("1", "user:check_unique"),
            ("2", "user:hash_password"),
            ("3", "*:audit_log"),
            ("4", "node:sync"),
        ],
    );
    let c = RouteCache::from_internals(&it);

    let mut user_hooks: Vec<&str> = c
        .item_pre_edit
        .get("user")
        .unwrap()
        .names
        .iter()
        .map(String::as_str)
        .collect();
    user_hooks.sort();
    assert_eq!(user_hooks, vec!["check_unique", "hash_password"]);

    assert_eq!(c.item_pre_edit.get("node").unwrap().names.as_slice(), &["sync".to_string()]);
    assert_eq!(c.item_pre_edit_wildcard, vec!["audit_log".to_string()]);
    assert!(c.item_post_edit.is_empty());
    assert!(c.item_post_edit_wildcard.is_empty());
}

#[test]
fn item_post_edit_hook_handles_wildcard_and_specific() {
    let it = item_with(
        "item_post_edit_hook",
        &[("1", "*:webhook_fanout"), ("2", "test:notify_engine")],
    );
    let c = RouteCache::from_internals(&it);
    assert_eq!(c.item_post_edit_wildcard, vec!["webhook_fanout".to_string()]);
    assert_eq!(
        c.item_post_edit.get("test").unwrap().names.as_slice(),
        &["notify_engine".to_string()]
    );
    assert!(c.item_pre_edit.is_empty());
    assert!(c.item_pre_edit_wildcard.is_empty());
}

#[test]
fn malformed_specs_are_skipped_not_panicking() {
    let it = item_multi(&[
        (
            "extra_route",
            &[
                ("1", "nopath"),
                ("2", "/p:get"),
                ("3", ":get:handler"),
                ("4", "/p:get:"),
                ("5", "/ok:method:handler_ok"),
            ],
        ),
        (
            "item_pre_edit_hook",
            &[
                ("1", "onlycollection"),
                ("2", ":handler"),
                ("3", "coll:"),
                ("4", "good:handler_ok"),
                ("5", "*:wild_ok"),
            ],
        ),
    ]);
    let c = RouteCache::from_internals(&it);

    assert_eq!(c.url_routes.len(), 1);
    assert_eq!(c.url_routes.get("/ok").map(String::as_str), Some("handler_ok"));

    assert_eq!(c.item_pre_edit.len(), 1);
    assert_eq!(
        c.item_pre_edit.get("good").unwrap().names.as_slice(),
        &["handler_ok".to_string()]
    );
    assert_eq!(c.item_pre_edit_wildcard, vec!["wild_ok".to_string()]);
}

#[test]
fn duplicate_paths_last_one_wins() {
    let it = item_with(
        "extra_route",
        &[("1", "/dup:get:first"), ("2", "/dup:get:second")],
    );
    let c = RouteCache::from_internals(&it);
    assert!(c.url_routes.contains_key("/dup"));
    let v = c.url_routes.get("/dup").unwrap();
    assert!(v == "first" || v == "second");
    assert_eq!(c.url_routes.len(), 1);
}

#[test]
fn handler_with_internal_colons_keeps_only_third_segment() {
    let it = item_with("extra_route", &[("1", "/p:get:handler:with:colons")]);
    let c = RouteCache::from_internals(&it);
    assert_eq!(c.url_routes.get("/p").map(String::as_str), Some("handler"));
}

#[test]
fn unknown_category_is_ignored() {
    let it = item_with("some_other_category", &[("1", "foo:bar:baz")]);
    let c = RouteCache::from_internals(&it);
    assert!(c.url_routes.is_empty());
    assert!(c.item_pre_edit.is_empty());
}

#[test]
fn hooks_of_the_collection_come_before_those_of_all() {
    let it = item_with("item_pre_edit_hook", &[("1", "*:all"), ("2", "user:own")]);
    let mut data = Data::new();
    assert_eq!(data.port, 8090);
    data.rebuild_route_cache(&it);
    let c = &data.route_cache;
    assert_eq!(
        hooks_to_call(&c.item_pre_edit, &c.item_pre_edit_wildcard, "user"),
        vec!["own", "all"]
    );
    assert_eq!(
        hooks_to_call(&c.item_pre_edit, &c.item_pre_edit_wildcard, "node"),
        vec!["all"]
    );
}

#[test]
fn routes_are_registered_with_their_verbs() {
    let it = item_with(
        "extra_route",
        &[("1", "/a:get:h"), ("2", "/b:post:h"), ("3", "nopath")],
    );
    let r = registrations(&it, "extra_route");
    assert_eq!(r.get("/a").map(String::as_str), Some("get"));
    assert_eq!(r.get("/b").map(String::as_str), Some("post"));
    assert_eq!(verb_of("get"), Some(Verb::Get));
    assert_eq!(verb_of("put"), None);
    assert_eq!(r.len(), 2);
}

#[test]
fn jobs_are_due_every_second_and_every_minute() {
    assert_eq!(ticks(10, 10, 0), vec!["min", "sec"]);
    assert_eq!(ticks(10, 11, 7), vec!["sec"]);
    assert!(ticks(12, 11, 0).is_empty());
}

#[test]
fn scopes_of_routes_are_read_from_their_table() {
    let mut internals = Item::new();
    let mut t: StrMap<String> = StrMap::new();
    t.insert("1".to_string(), "/probe:read".to_string());
    t.insert("2".to_string(), "/broken".to_string());
    t.insert("3".to_string(), ":read".to_string());
    internals.set_strstr("route_scope", &t);
    let c = RouteCache::from_internals(&internals);
    assert_eq!(c.route_scopes.get("/probe"), Some(&"read".to_string()));
    assert_eq!(c.route_scopes.len(), 1);
    assert!(RouteCache::empty().route_scopes.is_empty());
}
