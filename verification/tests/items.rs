//! Changing and listing records.
use isabelle_core::collections::{IdMap, StrMap};
use isabelle_core::handler::route_call_actor::PreEditReply;
use isabelle_core::item::{Item, ProcessResult};
use isabelle_core::server::itm::change::{
    changes_credentials, take_field, ChangeAction, ChangeEvent, DataObjectAction, ItemAnswer,
    ItemChange,
};
use isabelle_core::server::itm::list::{
    context_of, filter_hooks, final_filter, list_found, list_nothing, list_one, show_page,
    ListQuery, Listing,
};
use isabelle_core::server::itm::{itm_del, itm_edit, itm_list};
use isabelle_core::server::system::{split_words, system_update, update_failed, update_ran, Update};
use isabelle_core::state::route_cache::RouteCache;

fn table(entries: &[(&str, &str)]) -> StrMap<String> {
    let mut t: StrMap<String> = StrMap::new();
    for (k, v) in entries {
        t.insert(k.to_string(), v.to_string());
    }
    t
}

fn internals() -> Item {
    let mut it = Item::new();
    it.set_strstr("itm_auth_hook", &table(&[("1", "auth")]));
    it.set_strstr("item_pre_edit_hook", &table(&[("1", "note:pre"), ("2", "*:pre_all")]));
    it.set_strstr("item_post_edit_hook", &table(&[("1", "*:post")]));
    it
}

fn edit(collection: &str, known: bool, itm: &Item) -> ItemChange {
    let it = internals();
    let cache = RouteCache::from_internals(&it);
    itm_edit(collection, known, false, itm.clone(), itm.clone(), &it, &cache)
}

fn agree() -> ChangeEvent {
    ChangeEvent::Agreed(vec![Some(PreEditReply {
        result: ProcessResult::plain(true, ""),
        modified_item: None,
    })])
}

fn status(c: ItemChange) -> u16 {
    match c.into_answer() {
        Some(ItemAnswer::Status(s)) => s,
        Some(ItemAnswer::Outcome(s, _)) => s,
        None => panic!("no answer yet"),
    }
}

#[test]
fn an_edit_asks_everyone_before_it_writes() {
    let mut itm = Item::new();
    itm.set_str("name", "a");
    let mut c = edit("note", true, &itm);
    assert!(matches!(c.action(), ChangeAction::AskAuth(ref h) if h == "auth"));
    c.on(ChangeEvent::Auth(vec![Some(true), None]));
    assert!(matches!(c.action(), ChangeAction::Load(u64::MAX)));
    c.on(ChangeEvent::Loaded(None));
    assert!(matches!(
        c.action(),
        ChangeAction::AskPreEdit(ref h, DataObjectAction::Create) if h == "pre"
    ));
    let mut changed = itm.clone();
    changed.set_str("name", "b");
    c.on(ChangeEvent::Agreed(vec![Some(PreEditReply {
        result: ProcessResult::plain(true, ""),
        modified_item: Some(changed),
    })]));
    assert!(matches!(c.action(), ChangeAction::AskPreEdit(ref h, _) if h == "pre_all"));
    assert_eq!(c.item().safe_str("name", ""), "b");
    c.on(agree());
    match c.action() {
        ChangeAction::Write(w) => assert_eq!(w.safe_str("name", ""), "b"),
        _ => panic!("nothing is written"),
    }
    c.on(ChangeEvent::Written(9));
    assert!(matches!(c.action(), ChangeAction::TellPostEdit(ref h, _) if h == "post"));
    c.on(ChangeEvent::Told);
    match c.into_answer() {
        Some(ItemAnswer::Outcome(200, p)) => {
            assert!(p.succeeded);
            assert_eq!(p.data.get("id").map(String::as_str), Some("9"));
        }
        _ => panic!("another answer"),
    }
}

#[test]
fn a_denied_edit_writes_nothing() {
    let mut c = edit("note", true, &Item::new());
    c.on(ChangeEvent::Auth(vec![Some(true), Some(false)]));
    assert!(matches!(c.action(), ChangeAction::Answer));
    assert_eq!(status(c), 403);
}

#[test]
fn a_refused_edit_answers_with_the_refusal() {
    let mut c = edit("note", true, &Item::new());
    c.on(ChangeEvent::Auth(vec![]));
    c.on(ChangeEvent::Loaded(None));
    c.on(ChangeEvent::Agreed(vec![Some(PreEditReply {
        result: ProcessResult::plain(false, "not now"),
        modified_item: None,
    })]));
    match c.into_answer() {
        Some(ItemAnswer::Outcome(200, p)) => {
            assert!(!p.succeeded);
            assert_eq!(p.error, "not now");
        }
        _ => panic!("another answer"),
    }
}

#[test]
fn an_unknown_collection_and_the_tokens_are_refused() {
    for (collection, known) in [("nowhere", false), ("api_token", true)] {
        let mut c = edit(collection, known, &Item::new());
        c.on(ChangeEvent::Auth(vec![Some(true)]));
        assert_eq!(status(c), 400);
    }
}

#[test]
fn a_write_that_the_store_did_not_take_is_an_error() {
    let it = Item::new();
    let cache = RouteCache::from_internals(&it);
    let mut c = itm_edit("note", true, true, Item::new(), Item::new(), &it, &cache);
    c.on(ChangeEvent::Loaded(None));
    c.on(ChangeEvent::Written(u64::MAX));
    assert_eq!(status(c), 500);
}

#[test]
fn a_removal_tells_the_hooks_and_answers_either_way() {
    let it = internals();
    let cache = RouteCache::from_internals(&it);
    let mut sent = Item::new();
    sent.id = 4;
    let mut c = itm_del("other", true, false, sent.clone(), &it, &cache);
    c.on(ChangeEvent::Auth(vec![Some(true)]));
    c.on(ChangeEvent::Loaded(Some(sent)));
    assert!(c.old_item().is_some());
    assert!(matches!(
        c.action(),
        ChangeAction::AskPreEdit(_, DataObjectAction::Delete)
    ));
    c.on(agree());
    assert!(matches!(c.action(), ChangeAction::Remove(4)));
    c.on(ChangeEvent::Written(0));
    c.on(ChangeEvent::Told);
    assert_eq!(status(c), 200);
}

fn user() -> Item {
    let mut u = Item::new();
    u.id = 3;
    u.set_str("login", "bob");
    u.set_str("password", "old");
    u.set_bool("role_is_active", true);
    u.set_u64("session_gen", 6);
    u
}

fn written_over(was: &Item, update: &Item) -> Item {
    let it = Item::new();
    let cache = RouteCache::from_internals(&it);
    let mut c = itm_edit("user", true, true, update.clone(), update.clone(), &it, &cache);
    c.on(ChangeEvent::Loaded(Some(was.clone())));
    match c.action() {
        ChangeAction::Write(w) => w,
        _ => panic!("nothing is written"),
    }
}

#[test]
fn changing_a_password_or_a_role_signs_the_account_out() {
    let mut same = Item::new();
    same.id = 3;
    same.set_str("name", "Bob");
    assert_eq!(written_over(&user(), &same).safe_u64("session_gen", 0), 0);

    let mut password = Item::new();
    password.id = 3;
    password.set_str("password", "new");
    assert_eq!(written_over(&user(), &password).safe_u64("session_gen", 0), 7);

    let mut role = Item::new();
    role.id = 3;
    role.set_bool("role_is_admin", true);
    assert_eq!(written_over(&user(), &role).safe_u64("session_gen", 0), 7);
    assert!(!changes_credentials("role_is_", &user(), &user()));
}

#[test]
fn only_the_item_field_of_a_form_counts() {
    let mut itm = Item::new();
    itm.set_str("a", "1");
    let mut held = Item::new();
    held.id = 5;
    held.set_str("a", "2");
    take_field(&mut itm, "other", &held);
    assert_eq!(itm.safe_str("a", ""), "1");
    take_field(&mut itm, "item", &held);
    assert_eq!(itm.safe_str("a", ""), "2");
    assert_eq!(itm.id, u64::MAX);
}

fn query() -> ListQuery {
    ListQuery {
        collection: "note".to_string(),
        context: String::new(),
        id: u64::MAX,
        id_list: vec![],
        id_min: u64::MAX,
        id_max: u64::MAX,
        skip: u64::MAX,
        limit: u64::MAX,
        sort_key: String::new(),
        filter: String::new(),
    }
}

#[test]
fn a_listing_selects_what_is_given_first() {
    assert_eq!(itm_list(&query(), true), Listing::Nothing);
    assert_eq!(itm_list(&query(), false), Listing::Refused);
    let ids = ListQuery { id_list: vec![1], ..query() };
    assert_eq!(itm_list(&ids, true), Listing::Listed);
    let range = ListQuery { id_min: 1, id_list: vec![1], ..query() };
    assert_eq!(itm_list(&range, true), Listing::Range);
    let one = ListQuery { id: 1, id_min: 1, ..query() };
    assert_eq!(itm_list(&one, true), Listing::One);
    assert_eq!(context_of(&one), "full");
    assert_eq!(context_of(&query()), "");
    let brief = ListQuery { id: 1, context: "brief".to_string(), ..query() };
    assert_eq!(context_of(&brief), "brief");
}

#[test]
fn a_listing_with_a_forbidden_filter_or_key_is_refused() {
    let filter = ListQuery { filter: "{\"strs.otp\":\"1\"}".to_string(), ..query() };
    assert_eq!(itm_list(&filter, true), Listing::Refused);
    let allowed = ListQuery { filter: "{\"ids.user\":1}".to_string(), ..query() };
    assert_eq!(itm_list(&allowed, true), Listing::Range);
    let key = ListQuery { sort_key: "strs.password".to_string(), ..query() };
    assert_eq!(itm_list(&key, true), Listing::Refused);
    let tokens = ListQuery { collection: "api_token".to_string(), id: 1, ..query() };
    assert_eq!(itm_list(&tokens, true), Listing::Refused);
}

#[test]
fn filters_are_joined_so_that_all_hold() {
    assert_eq!(final_filter("", &vec![]), "");
    assert_eq!(final_filter("A", &vec![]), "A");
    assert_eq!(final_filter("", &vec!["B".to_string()]), "B");
    assert_eq!(
        final_filter("A", &vec!["B".to_string(), "C".to_string()]),
        "{ \"$and\": [{ \"$and\": [A, B]}, C]}"
    );
}

fn numbered(id: u64) -> (u64, Item) {
    let mut i = Item::new();
    i.id = id;
    (id, i)
}

#[test]
fn given_ids_are_paged_in_their_order() {
    let found = || vec![numbered(5), numbered(1), numbered(3)];
    let page = list_found(found(), 1, 1);
    assert_eq!(page.total_count, 3);
    assert_eq!(page.map.len(), 1);
    assert!(page.map.contains_key(3));
    assert_eq!(list_found(found(), u64::MAX, u64::MAX).map.len(), 3);
    assert_eq!(list_found(found(), 0, 0).map.len(), 0);

    assert_eq!(list_one(7, Some(Item::new())).unwrap().total_count, 1);
    assert!(list_one(7, None).is_none());
    assert_eq!(list_nothing().total_count, 0);
}

#[test]
fn hooks_see_a_page_in_the_order_of_their_names() {
    let mut it = Item::new();
    it.set_strstr(
        "itm_list_filter_hook",
        &table(&[("20", "c"), ("10", "b"), ("1", "a")]),
    );
    assert_eq!(filter_hooks(&it), vec!["a", "b", "c"]);
    assert!(filter_hooks(&Item::new()).is_empty());
}

#[test]
fn credentials_of_others_are_not_shown() {
    let mut page: IdMap<Item> = IdMap::new();
    page.insert(3, user());
    let mut other = user();
    other.id = 4;
    page.insert(4, other);
    let seen = show_page(&page, "user", false, Some(3));
    assert_eq!(seen.get(3).unwrap().safe_str("password", ""), "old");
    assert_eq!(seen.get(4).unwrap().safe_str("password", ""), "");
    assert_eq!(seen.get(4).unwrap().safe_str("login", ""), "bob");
    let admin = show_page(&page, "user", true, Some(3));
    assert_eq!(admin.get(4).unwrap().safe_str("password", ""), "old");
    let notes = show_page(&page, "note", false, None);
    assert_eq!(notes.get(4).unwrap().safe_str("password", ""), "old");
}

#[test]
fn an_update_runs_the_script_of_the_deployment() {
    let mut admin = Item::new();
    admin.set_bool("role_is_active", true);
    admin.set_bool("role_is_admin", true);
    let admin = Some(admin);
    assert!(matches!(
        system_update(&Item::new(), &None, "run it"),
        Update::Forbidden
    ));
    match system_update(&Item::new(), &admin, " ./up.sh  --now ") {
        Update::Run(program, args) => {
            assert_eq!(program, "./up.sh");
            assert_eq!(args, vec!["--now"]);
        }
        _ => panic!("nothing is run"),
    }
    assert_eq!(split_words("a\tb\n c"), vec!["a", "b", "c"]);
    match system_update(&Item::new(), &admin, "  ") {
        Update::Answer(p) => assert_eq!(p.error, "update script is not configured"),
        _ => panic!("nothing was configured"),
    }
    let r = update_ran(false, Some(3), "exit status: 3", "out".to_string(), "err".to_string());
    assert!(!r.succeeded);
    assert_eq!(r.error, "update script exited with status exit status: 3");
    assert_eq!(r.data.get("stdout").map(String::as_str), Some("out"));
    assert_eq!(update_failed("gone").error, "failed to run update script: gone");
}
