//! Routing requests to plugins, and what they carry.
use isabelle_core::collections::{IdMap, StrMap};
use isabelle_core::handler::route::{
    count_in, plugin_headers, rest_response, url_generic_rest_route, url_route,
    url_unprotected_route, ReadError, RestStep,
};
use isabelle_core::handler::route_call::{
    call_url_post_route, call_url_route, handle_file_cleanup, item_text, taken, Upload,
};
use isabelle_core::handler::route_call_actor::{
    answered, call_collection_read_hook_actor, call_item_auth_hook_actor,
    call_item_list_db_filter_hook_actor, call_item_list_filter_hook_actor,
    call_item_pre_edit_hook_actor, call_url_post_route_actor, call_url_route_actor,
    CollectionReadReply, PreEditReply,
};
use isabelle_core::handler::web_response::{conv_response, Sent, WebResponse};
use isabelle_core::item::{Item, ProcessResult};
use isabelle_core::plugin_actor_demo::{DemoReply, DemoStats, PluginHookMessage};
use isabelle_core::state::route_cache::RouteCache;

fn headers(list: &[(&str, &str)]) -> StrMap<String> {
    let v: Vec<(String, Option<String>)> = list
        .iter()
        .map(|(n, x)| (n.to_string(), Some(x.to_string())))
        .collect();
    plugin_headers(&v)
}

#[test]
fn a_signature_survives_with_its_name_folded() {
    let h = headers(&[("Stripe-Signature", "t=1,v1=ab")]);
    assert_eq!(
        h.get("stripe-signature").map(String::as_str),
        Some("t=1,v1=ab")
    );
}

#[test]
fn credentials_are_withheld() {
    let h = headers(&[
        ("Cookie", "id=secret"),
        ("Authorization", "Bearer secret"),
        ("Proxy-Authorization", "Basic secret"),
        ("Content-Type", "application/json"),
    ]);
    assert!(!h.contains_key("cookie"));
    assert!(!h.contains_key("authorization"));
    assert!(!h.contains_key("proxy-authorization"));
    assert_eq!(
        h.get("content-type").map(String::as_str),
        Some("application/json")
    );
}

#[test]
fn a_repeated_header_is_its_last_value_and_no_text_is_no_header() {
    let v = vec![
        ("X-A".to_string(), Some("1".to_string())),
        ("x-a".to_string(), Some("2".to_string())),
        ("X-B".to_string(), None),
    ];
    let h = plugin_headers(&v);
    assert_eq!(h.get("x-a").map(String::as_str), Some("2"));
    assert!(!h.contains_key("x-b"));
    assert_eq!(h.len(), 1);
}

fn file_names(files: &StrMap<String>) -> Vec<String> {
    files
        .sorted_keys()
        .iter()
        .map(|k| files.get(k).unwrap().clone())
        .collect()
}

#[test]
fn a_request_without_a_body_is_accepted() {
    let (itm, files) = Upload::begin(1_000).finish();
    assert!(itm.strs.is_empty(), "nothing was posted");
    assert!(files.is_empty());
}

#[test]
fn a_request_without_uploads_creates_no_directory() {
    let mut up = Upload::begin(1_000);
    assert!(up.chunk(8).is_ok());
    let mut sent = Item::new();
    sent.id = 7;
    up.item_field(&sent);
    let (itm, files) = up.finish();
    assert_eq!(itm.id, 7, "the item field was not read");
    assert!(files.is_empty());
    let (paths, dirs) = handle_file_cleanup(&files);
    assert!(paths.is_empty() && dirs.is_empty());
    assert!(itm.strstrs.is_empty());
}

#[test]
fn a_refused_body_without_uploads_creates_no_directory() {
    let mut up = Upload::begin(8);
    let err = up.chunk(64).expect_err("an oversized body was accepted");
    assert_eq!(err, ReadError::TooLarge(64));
    assert_eq!(err.status(), 413);
    let files = up.abandon();
    assert!(files.is_empty());
}

#[test]
fn uploads_get_a_directory_that_cleanup_removes() {
    let mut up = Upload::begin(1_000);
    let dir = up.directory();
    let a = up.file_field(Some("a.txt"));
    let b = up.file_field(Some("b.txt"));
    let (itm, files) = up.finish();
    assert_eq!(files.len(), 2);
    assert!(a.starts_with(&format!("{dir}/")) && b.starts_with(&format!("{dir}/")));
    assert_eq!(file_names(&files), vec![a.clone(), b.clone()]);
    let listed = itm.safe_strstr("multipart-files");
    assert_eq!(listed.get("0"), Some(&a));
    assert_eq!(listed.get("1"), Some(&b));

    let (paths, dirs) = handle_file_cleanup(&files);
    assert_eq!(paths.len(), 2);
    assert!(paths.contains(&a) && paths.contains(&b));
    assert_eq!(dirs, vec![dir]);
}

#[test]
fn concurrent_uploads_of_one_name_do_not_collide() {
    let mut first = Upload::begin(1_000);
    let mut second = Upload::begin(1_000);
    let a = first.file_field(Some("photo.jpg"));
    let b = second.file_field(Some("photo.jpg"));
    assert_ne!(a, b, "two requests shared one upload path");
    let (_, dirs) = handle_file_cleanup(&first.abandon());
    assert!(!b.starts_with(&dirs[0]), "cleanup reached into another request");
}

#[test]
fn a_file_name_cannot_leave_the_directory_of_its_request() {
    let mut up = Upload::begin(1_000);
    let dir = up.directory();
    let path = up.file_field(Some("../../etc/passwd"));
    assert_eq!(path, format!("{dir}/....etcpasswd"));
    assert_eq!(up.file_field(Some("report-2024.pdf")), format!("{dir}/report-2024.pdf"));
    assert_eq!(up.file_field(Some("..")), format!("{dir}/"));
    let own = up.file_field(None);
    assert_eq!(own.len(), dir.len() + 1 + 36);
    assert!(dir.starts_with("./tmp/"));
    assert_eq!(dir.len(), "./tmp/".len() + 36);
}

#[test]
fn fields_count_together_against_the_limit() {
    let mut up = Upload::begin(10);
    assert!(up.chunk(6).is_ok());
    assert_eq!(up.chunk(5), Err(ReadError::TooLarge(11)));
    assert!(up.chunk(4).is_ok());
    assert_eq!(count_in(usize::MAX, 1, 10), Err(ReadError::TooLarge(usize::MAX)));
    assert_eq!(ReadError::TimedOut.status(), 400);
    assert_eq!(ReadError::Malformed("x".to_string()).status(), 400);
}

fn cache() -> RouteCache {
    let mut internals = Item::new();
    let mut t: StrMap<String> = StrMap::new();
    t.insert("1".to_string(), "/a:get:h_a".to_string());
    internals.set_strstr("extra_route", &t);
    let mut u: StrMap<String> = StrMap::new();
    u.insert("1".to_string(), "/b:post:h_b".to_string());
    internals.set_strstr("extra_unprotected_route", &u);
    let mut r: StrMap<String> = StrMap::new();
    r.insert("1".to_string(), "/hook:post:h_r".to_string());
    internals.set_strstr("extra_rest_route", &r);
    RouteCache::from_internals(&internals)
}

#[test]
fn a_route_is_found_in_its_own_table_alone() {
    let c = cache();
    assert_eq!(url_route(&c, "/a"), Some("h_a".to_string()));
    assert_eq!(url_route(&c, "/b"), None);
    assert_eq!(url_unprotected_route(&c, "/b"), Some("h_b".to_string()));
    assert_eq!(
        url_generic_rest_route(&c, "/hook", Ok("caf\u{e9}".as_bytes().to_vec())),
        RestStep::Call {
            handler: "h_r".to_string(),
            body: "caf\u{e9}".to_string(),
        }
    );
    let no_text = vec![0x63u8, 0xff];
    assert_eq!(url_generic_rest_route(&c, "/hook", Ok(no_text.clone())), RestStep::Refuse(400));
    assert_eq!(url_generic_rest_route(&c, "/a", Ok(no_text)), RestStep::Refuse(400));
    assert_eq!(url_generic_rest_route(&c, "/a", Ok(Vec::new())), RestStep::Refuse(404));
    assert_eq!(
        url_generic_rest_route(&c, "/hook", Err(ReadError::TooLarge(9))),
        RestStep::Refuse(413)
    );
    assert_eq!(
        url_generic_rest_route(&c, "/hook", Err(ReadError::TimedOut)),
        RestStep::Refuse(400)
    );
}

fn status(s: Sent) -> Option<u16> {
    match s {
        Sent::Status(n) => Some(n),
        _ => None,
    }
}

#[test]
fn answers_become_statuses() {
    assert_eq!(status(conv_response(WebResponse::NotFound, false)), Some(404));
    assert_eq!(status(conv_response(WebResponse::Unauthorized, false)), Some(401));
    assert_eq!(status(conv_response(WebResponse::BadRequest, false)), Some(400));
    assert_eq!(status(conv_response(WebResponse::Forbidden, false)), Some(403));
    match conv_response(WebResponse::OkData("x".to_string()), false) {
        Sent::Text(t) => assert_eq!(t, "x"),
        _ => panic!("text was not sent"),
    }
}

#[test]
fn nobody_answering_is_an_absence_or_an_acceptance() {
    assert_eq!(status(call_url_route(WebResponse::NotImplemented, false)), Some(404));
    assert_eq!(status(call_url_post_route(WebResponse::NotImplemented, false)), Some(200));
    assert!(matches!(taken(WebResponse::NotImplemented), WebResponse::Success));
    assert!(matches!(taken(WebResponse::Forbidden), WebResponse::Forbidden));
}

#[test]
fn a_session_that_could_not_be_opened_is_an_error() {
    let login = WebResponse::Login("a@b".to_string());
    assert_eq!(status(rest_response(login, true, false)), Some(500));
    let login = WebResponse::Login("a@b".to_string());
    assert_eq!(status(rest_response(login, false, false)), Some(200));
}

fn agree() -> PreEditReply {
    PreEditReply {
        result: ProcessResult::plain(true, ""),
        modified_item: None,
    }
}

#[test]
fn the_first_refusal_decides_an_edit() {
    let mut itm = Item::new();
    let mut changed = Item::new();
    changed.set_str("name", "changed");
    let replies = vec![
        Some(PreEditReply {
            result: ProcessResult::plain(false, "not implemented"),
            modified_item: Some(changed),
        }),
        None,
        Some(PreEditReply {
            result: ProcessResult::plain(false, "no"),
            modified_item: None,
        }),
        Some(PreEditReply {
            result: ProcessResult::plain(false, "never asked"),
            modified_item: None,
        }),
    ];
    let r = call_item_pre_edit_hook_actor(&mut itm, replies);
    assert!(!r.succeeded);
    assert_eq!(r.error, "no");
    assert_eq!(itm.safe_str("name", ""), "changed");
    assert!(call_item_pre_edit_hook_actor(&mut itm, vec![Some(agree())]).succeeded);
}

#[test]
fn one_denial_is_enough() {
    assert!(call_item_auth_hook_actor(&vec![]));
    assert!(call_item_auth_hook_actor(&vec![None, Some(true)]));
    assert!(!call_item_auth_hook_actor(&vec![Some(true), Some(false), Some(true)]));
}

#[test]
fn the_first_answer_counts_without_a_body_and_the_last_with_one() {
    let replies = || {
        vec![
            Some(WebResponse::NotImplemented),
            Some(WebResponse::NotFound),
            None,
            Some(WebResponse::Forbidden),
            Some(WebResponse::NotImplemented),
        ]
    };
    assert!(matches!(call_url_route_actor(replies()), WebResponse::NotFound));
    assert!(matches!(call_url_post_route_actor(replies()), WebResponse::Forbidden));
    assert!(matches!(call_url_route_actor(vec![None]), WebResponse::NotImplemented));
}

#[test]
fn pages_and_items_pass_from_plugin_to_plugin() {
    let mut page: IdMap<Item> = IdMap::new();
    page.insert(1, Item::new());
    page.insert(2, Item::new());
    let mut left: IdMap<Item> = IdMap::new();
    left.insert(2, Item::new());
    call_item_list_filter_hook_actor(&mut page, vec![None, Some(left), None]);
    assert!(!page.contains_key(1) && page.contains_key(2));

    let mut itm = Item::new();
    let mut other = Item::new();
    other.id = 9;
    let save = call_collection_read_hook_actor(
        &mut itm,
        vec![
            Some(CollectionReadReply {
                should_save: true,
                item: None,
            }),
            Some(CollectionReadReply {
                should_save: false,
                item: Some(other),
            }),
        ],
    );
    assert!(save);
    assert_eq!(itm.id, 9);

    let filters =
        call_item_list_db_filter_hook_actor(&vec![Some("".to_string()), None, Some("{}".to_string())]);
    assert_eq!(filters, vec!["{}"]);
}

#[test]
fn dispatcher_reaches_demo_plugin_via_actor_path() {
    let mut stats = DemoStats::default();

    let mut itm = Item::new();
    let reply = match stats.answer(PluginHookMessage::ItemPreEdit) {
        DemoReply::PreEdit(r) => r,
        _ => panic!("another answer"),
    };
    let r = call_item_pre_edit_hook_actor(&mut itm, vec![Some(reply)]);
    assert!(r.succeeded, "pre_edit reply should be ok");

    assert!(matches!(
        stats.answer(PluginHookMessage::ItemPostEdit),
        DemoReply::Nothing
    ));

    let allowed = match stats.answer(PluginHookMessage::ItemAuth) {
        DemoReply::Allowed(a) => call_item_auth_hook_actor(&vec![Some(a)]),
        _ => panic!("another answer"),
    };
    assert!(allowed, "demo plugin allows everything");

    assert_eq!(stats.item_pre_edit, 1, "pre_edit counter");
    assert_eq!(stats.item_post_edit, 1, "post_edit counter");
    assert_eq!(stats.item_auth, 1, "auth counter");
    assert_eq!(stats.ping, 0);
}

#[test]
fn an_uploaded_file_keeps_what_a_file_name_can_hold() {
    let mut up = Upload::begin_in(1_000, "7");
    assert_eq!(up.directory(), "./tmp/7");
    assert_eq!(up.file_field(Some("a/b?.txt")), "./tmp/7/ab.txt");
    assert_eq!(up.file_field(Some("a\u{7}b|c\u{85}.pdf")), "./tmp/7/abc.pdf");
    assert_eq!(up.file_field(Some("na\u{ef}ve name.txt")), "./tmp/7/na\u{ef}ve name.txt");
    assert_eq!(up.file_field(Some("...")), "./tmp/7/");
    assert_eq!(up.file_field(Some("?*")), "./tmp/7/");
    let long = "x".repeat(300);
    assert_eq!(up.file_field(Some(&long)), format!("./tmp/7/{}", "x".repeat(255)));
    let wide = "\u{20ac}".repeat(100);
    assert_eq!(up.file_field(Some(&wide)), format!("./tmp/7/{}", "\u{20ac}".repeat(85)));
    let (_, files) = up.finish();
    assert_eq!(files.len(), 7);
}

#[test]
fn an_item_field_that_is_no_text_holds_nothing() {
    assert_eq!(item_text(b"{\"id\":3}".to_vec()), "{\"id\":3}");
    assert_eq!(item_text(vec![0xff, 0xfe]), "{}");
    assert_eq!(item_text(Vec::new()), "");
}

#[test]
fn the_next_plugin_is_asked_only_where_one_does_not_answer() {
    assert!(!answered(&None));
    assert!(!answered(&Some(WebResponse::NotImplemented)));
    assert!(answered(&Some(WebResponse::Success)));
}
