//! The stores.
use isabelle_core::collections::StrMap;
use isabelle_core::item::{Item, ListResult};
use isabelle_core::notif::email::send_email;
use isabelle_core::server::api_token::hash as digest;
use isabelle_core::state::connecting::{table_values, ConnectAction, ConnectEvent, Connector};
use isabelle_core::state::core_task::{
    handle_message, serve, CoreMessage, CoreReply, CoreStep, StoreRequest,
};
use isabelle_core::state::secrets::SecretStore;
use isabelle_core::state::store::{merged, read_config_or_empty, storable, ConfigRead, UserLookup};
use isabelle_core::state::store_local::{find_user, page_read, StoreLocal};
use isabelle_core::state::store_memory::StoreMemory;
use isabelle_core::state::store_mongo::{
    declared_indexes, find_one_checked, get_collections, json_to_bson, plan_list, plan_sort, plan_with,
    raise_counter, user_filter, FindOne, Lookup, Selection, StoreMongo, WriteStep,
    USER_CACHE_TTL_MS,
};
use isabelle_core::util::crypto::random_token;

/// A store with these items, and the items that its files hold.
fn make_store_with_items(ids: &[u64]) -> (StrMap<Item>, StoreLocal) {
    let mut store = StoreLocal::new();
    let names: Vec<String> = ids.iter().map(|i| i.to_string()).collect();
    let counter = ids.iter().max().unwrap_or(&0).to_string();
    store.register("test", Some(&counter), &names);
    let mut files: StrMap<Item> = StrMap::new();
    for id in ids {
        let mut itm = Item::new();
        itm.id = *id;
        itm.set_str("name", &format!("item{}", id));
        files.insert(store.data_path("test", *id), itm);
    }
    (files, store)
}

fn set_item(files: &mut StrMap<Item>, store: &mut StoreLocal, itm: &Item) -> u64 {
    let written = store.begin_write("test", itm);
    let id = written.id;
    files.insert(store.data_path("test", id), written);
    store.end_write("test", id);
    id
}

fn list(
    files: &StrMap<Item>,
    store: &StoreLocal,
    id_min: u64,
    id_max: u64,
    skip: u64,
    limit: u64,
) -> ListResult {
    let (ids, total) = store.list_ids("test", id_min, id_max, skip, limit);
    let found = ids
        .iter()
        .map(|id| files.get(&store.data_path("test", *id)).cloned())
        .collect();
    page_read(&ids, found, total)
}

fn sorted_ids(lr: &ListResult) -> Vec<u64> {
    (0..lr.map.len()).map(|i| lr.map.key(i)).collect()
}

#[test]
fn consecutive_creations_get_distinct_ids() {
    let (mut files, mut store) = make_store_with_items(&[1, 2, 3]);

    let mut ids = Vec::new();
    for _ in 0..5 {
        let mut itm = Item::new();
        itm.strs.insert("name".into(), "new".into());
        ids.push(set_item(&mut files, &mut store, &itm));
    }

    assert_eq!(ids, vec![4, 5, 6, 7, 8], "ids repeated or skipped");
    let unique: std::collections::HashSet<u64> = ids.iter().copied().collect();
    assert_eq!(unique.len(), ids.len(), "an id was handed out twice");
    assert_eq!(store.catalog.item_ids("test").len(), 8);
}

#[test]
fn a_new_id_never_lands_on_an_existing_item() {
    let (mut files, mut store) = make_store_with_items(&[1, 2, 3]);
    let mut itm = Item::new();
    itm.strs.insert("name".into(), "new".into());
    let id = set_item(&mut files, &mut store, &itm);
    assert!(id > 3, "new id {} collides with a seeded item", id);
    assert_eq!(
        files
            .get(&store.data_path("test", 1))
            .unwrap()
            .safe_str("name", ""),
        "item1",
        "the creation overwrote an existing item"
    );
}

#[test]
fn a_torn_item_file_reads_as_absent() {
    let (_files, store) = make_store_with_items(&[1]);
    let (ids, total) = store.list_ids("test", u64::MAX, u64::MAX, u64::MAX, u64::MAX);
    let lr = page_read(&ids, vec![None], total);
    assert!(lr.map.get(1).is_none());
}

#[test]
fn get_items_returns_all_when_no_paging() {
    let (files, store) = make_store_with_items(&[3, 1, 2, 5, 4]);
    let lr = list(&files, &store, u64::MAX, u64::MAX, u64::MAX, u64::MAX);
    assert_eq!(sorted_ids(&lr), vec![1, 2, 3, 4, 5]);
    assert_eq!(lr.total_count, 5);
}

#[test]
fn get_items_paginates_in_id_ascending_order() {
    let (files, store) = make_store_with_items(&[5, 1, 4, 2, 3]);
    let lr = list(&files, &store, u64::MAX, u64::MAX, 2, 2);
    assert_eq!(sorted_ids(&lr), vec![3, 4]);
    assert_eq!(lr.total_count, 5);
}

#[test]
fn get_items_limit_zero_returns_empty_page_but_full_total() {
    let (files, store) = make_store_with_items(&[1, 2, 3]);
    let lr = list(&files, &store, u64::MAX, u64::MAX, 0, 0);
    assert!(lr.map.len() == 0);
    assert_eq!(lr.total_count, 3);
}

#[test]
fn get_items_id_range_filters_total_count_too() {
    let (files, store) = make_store_with_items(&[1, 2, 3, 4, 5, 6, 7]);
    let lr = list(&files, &store, 3, 5, 0, u64::MAX);
    assert_eq!(sorted_ids(&lr), vec![3, 4, 5]);
    assert_eq!(lr.total_count, 3);
}

#[test]
fn get_items_skip_past_end_yields_empty() {
    let (files, store) = make_store_with_items(&[1, 2, 3]);
    let lr = list(&files, &store, u64::MAX, u64::MAX, 10, u64::MAX);
    assert!(lr.map.len() == 0);
    assert_eq!(lr.total_count, 3);
}

#[test]
fn get_items_skip_max_is_treated_as_zero() {
    let (files, store) = make_store_with_items(&[1, 2, 3]);
    let lr = list(&files, &store, u64::MAX, u64::MAX, u64::MAX, 2);
    assert_eq!(sorted_ids(&lr), vec![1, 2]);
}

fn named_site(name: &str) -> Item {
    let mut it = Item::new();
    it.strs.insert("default_site_name".into(), name.into());
    it
}

#[test]
fn get_internals_loads_from_disk_first_time() {
    let mut store = StoreLocal::new();
    assert!(store.internals_cache.is_none());
    let result = store.get_internals(ConfigRead::Item(named_site("Test")));
    assert_eq!(
        result.strs.get("default_site_name").map(String::as_str),
        Some("Test")
    );
    assert!(store.internals_cache.is_some());
}

#[test]
fn get_internals_is_cached_across_calls() {
    let mut store = StoreLocal::new();
    let first = store.get_internals(ConfigRead::Item(named_site("Original")));
    assert_eq!(
        first.strs.get("default_site_name").map(String::as_str),
        Some("Original")
    );
    let second = store.get_internals(ConfigRead::Item(named_site("Changed")));
    assert_eq!(
        second.strs.get("default_site_name").map(String::as_str),
        Some("Original")
    );
    assert!(store.cached_internals().is_some());
}

#[test]
fn get_internals_missing_file_caches_empty() {
    let mut store = StoreLocal::new();
    let result = store.get_internals(ConfigRead::Missing);
    assert!(result.strs.is_empty());
    assert!(result.strstrs.is_empty());

    let second = store.get_internals(ConfigRead::Item(named_site("Late")));
    assert!(second.strs.is_empty());
    assert!(store.internals_cache.is_some());
}

#[test]
fn the_counter_of_a_collection_survives_opening_it_again() {
    let mut store = StoreLocal::new();
    store.path = "/data".to_string();
    store.register("test", Some(" 12 "), &vec!["3".to_string()]);
    let itm = Item::new();
    let w = store.begin_write("test", &itm);
    assert_eq!(w.id, 13);
    assert_eq!(store.end_write("test", w.id), Some("13".to_string()));
    assert_eq!(store.counter_path("test"), "/data/collection/test/cnt");
    assert_eq!(store.data_path("test", 13), "/data/collection/test/13/data.js");
    assert!(store.del_item("test", 13));
    assert!(!store.del_item("test", 13));
    // A deleted number does not come back.
    assert_eq!(store.begin_write("test", &itm).id, 14);
}

#[test]
fn a_broken_configuration_reads_as_empty_and_is_told() {
    let (itm, told) = read_config_or_empty(ConfigRead::Unreadable);
    assert!(itm.strs.is_empty() && told);
    assert!(!read_config_or_empty(ConfigRead::Missing).1);
}

// ---------------------------------------------------------------------------
// The document database
// ---------------------------------------------------------------------------

fn user_item(login: &str, email: &str) -> Item {
    let mut it = Item::new();
    it.id = 1;
    it.strs.insert("login".into(), login.into());
    it.strs.insert("email".into(), email.into());
    it
}

fn cached(login: &str) -> StoreMongo {
    let mut store = StoreMongo::new();
    let began = match store.user_cache.begin(login, 0) {
        Lookup::Ask(g) => g,
        Lookup::Found(_) => panic!("nothing was looked up yet"),
    };
    store.user_cache.end(
        login,
        began,
        Ok(Some(user_item("alice", "alice@example.com"))),
        0,
    );
    store
}

fn known(store: &StoreMongo, login: &str, now: u64) -> Option<Item> {
    match store.user_cache.begin(login, now) {
        Lookup::Found(u) => Some(u),
        Lookup::Ask(_) => None,
    }
}

#[test]
fn find_user_returns_fresh_cache_entry_without_touching_mongo() {
    let store = cached("alice");
    let got = known(&store, "alice", 1);
    assert!(got.is_some());
    let got = got.unwrap();
    assert_eq!(got.strs.get("login").map(String::as_str), Some("alice"));
    assert_eq!(
        got.strs.get("email").map(String::as_str),
        Some("alice@example.com")
    );
    assert!(known(&store, "alice", USER_CACHE_TTL_MS).is_none());
}

#[test]
fn find_user_returns_clone_independent_of_cache() {
    let store = cached("alice");
    let mut first = known(&store, "alice", 1).unwrap();
    first.strs.insert("login".into(), "tampered".into());

    let second = known(&store, "alice", 1).unwrap();
    assert_eq!(second.strs.get("login").map(String::as_str), Some("alice"));
}

#[test]
fn user_cache_keyed_by_session_principal_not_canonical_login() {
    let store = cached("alice@example.com");
    assert!(known(&store, "alice@example.com", 1).is_some());
    assert!(known(&store, "alice", 1).is_none());
}

fn generation(store: &StoreMongo) -> u64 {
    match store.user_cache.begin("nobody at all", 0) {
        Lookup::Ask(g) => g,
        Lookup::Found(_) => panic!("an account that was never looked up"),
    }
}

#[test]
fn invalidating_the_user_cache_moves_the_generation_on() {
    let mut store = cached("alice");
    let before = generation(&store);

    store.user_cache.invalidate();

    assert!(known(&store, "alice", 1).is_none());
    assert_ne!(
        generation(&store),
        before,
        "a lookup in flight cannot tell it raced a write"
    );
}

#[test]
fn a_generation_that_moved_means_the_read_is_stale() {
    let mut store = StoreMongo::new();
    let gen_at_start = generation(&store);
    store.user_cache.invalidate();
    assert_ne!(generation(&store), gen_at_start);
    // And what it read is handed out, but not kept.
    let r = store.user_cache.end(
        "alice",
        gen_at_start,
        Ok(Some(user_item("alice", "alice@example.com"))),
        1,
    );
    assert!(matches!(r, UserLookup::Found(_)));
    assert!(known(&store, "alice", 1).is_none());
}

#[test]
fn a_database_that_fails_is_told_apart_from_one_without_the_account() {
    let mut store = StoreMongo::new();
    assert!(matches!(
        store.user_cache.end("a", 0, Ok(None), 1),
        UserLookup::Absent
    ));
    assert!(matches!(
        store.user_cache.end("a", 0, Err("down".to_string()), 1),
        UserLookup::Unavailable
    ));
}

#[test]
fn a_listing_is_put_to_the_database_as_it_was_asked_for() {
    let p = plan_list(3, u64::MAX, "-strs.name", "{\"ids.user\": 7}", u64::MAX, 0);
    match &p.selection {
        Selection::Both(d, b) => {
            assert!(d.contains_key("ids.user"));
            assert_eq!(b.min, Some(3));
            assert_eq!(b.max, None);
        }
        _ => panic!("another selection"),
    }
    assert_eq!(
        p.sort,
        vec![("strs.name".to_string(), true), ("id".to_string(), true)]
    );
    assert_eq!(p.skip, 0);
    assert!(p.count_only);
    let all = plan_list(u64::MAX, u64::MAX, "", "{}", 5, u64::MAX);
    assert!(matches!(all.selection, Selection::Everything));
    assert_eq!(all.limit, i64::MAX);
    assert_eq!(plan_sort(""), vec![("id".to_string(), false)]);
    let bounded = plan_with(None, u64::MAX, 9, "id", 2, 4);
    match bounded.selection {
        Selection::Ids(b) => {
            assert_eq!(b.min, None);
            assert_eq!(b.max, Some(9));
        }
        _ => panic!("another selection"),
    }
    assert_eq!(bounded.skip, 2);
    assert_eq!(bounded.limit, 4);
    assert!(!bounded.count_only);
}

#[test]
fn a_filter_is_read_into_a_document() {
    let d = json_to_bson("{\"strs.name\": \"a\"}").unwrap();
    assert_eq!(d.get_str("strs.name").unwrap(), "a");
    assert!(json_to_bson("[1]").is_err());
    assert!(json_to_bson("no").is_err());
    assert!(matches!(find_one_checked(""), FindOne::Any));
    assert!(matches!(find_one_checked("no"), FindOne::Nothing));
    assert!(matches!(find_one_checked("{\"a\":1}"), FindOne::With(_)));
    assert!(json_to_bson(&user_filter("bob")).is_ok());
    assert_eq!(
        get_collections(&vec!["user".to_string(), "__id_counters".to_string()]),
        vec!["user"]
    );
    assert_eq!(raise_counter(u64::MAX), i64::MAX);
    assert_eq!(raise_counter(5), 5);
}

#[test]
fn collections_are_opened_one_after_the_other() {
    let (mut c, first) = Connector::start(vec!["user".to_string()]);
    assert!(matches!(first, ConnectAction::Create(ref n) if n == "user"));
    assert!(matches!(
        c.on(ConnectEvent::Created(true)),
        ConnectAction::EnsureIndexes(_)
    ));
    assert!(matches!(c.on(ConnectEvent::Indexed), ConnectAction::Find(_)));
    assert!(matches!(c.on(ConnectEvent::Found(true)), ConnectAction::NextRow));
    assert!(matches!(c.on(ConnectEvent::Row(7)), ConnectAction::NextRow));
    assert!(matches!(
        c.on(ConnectEvent::RowsEnded),
        ConnectAction::RaiseCounter(ref n, 7) if n == "user"
    ));
    assert!(c.into_catalog().has_collection("user"));
}

#[test]
fn indexes_are_those_that_are_declared() {
    let mut t: StrMap<String> = StrMap::new();
    t.insert("1".to_string(), "user:strs.login:unique".to_string());
    t.insert("2".to_string(), "note:u64s.time".to_string());
    let mut internals = Item::new();
    internals.set_strstr("indexes", &t);
    let mine = declared_indexes(&internals, "user");
    assert_eq!(mine.len(), 1);
    assert_eq!(mine[0].field, "strs.login");
    assert!(mine[0].unique);
    assert_eq!(table_values(&internals, "indexes").len(), 2);
}

#[test]
fn a_new_record_gets_its_number_from_the_shared_counter() {
    let mut store = StoreMongo::new();
    let mut itm = Item::new();
    itm.set_bool("__security_preserve", true);
    match store.begin_write("user", &itm) {
        WriteStep::Write(w) => assert!(w.bools.is_empty(), "the flag would be stored"),
        WriteStep::Allocate(_) => panic!("there is no such collection"),
    }
    assert!(store.end_write("user", 5, true));
    assert!(!store.end_write("user", u64::MAX, true));
}

// ---------------------------------------------------------------------------
// The store in memory, and what plugins ask of it
// ---------------------------------------------------------------------------

fn ask(store: &mut StoreMemory, msg: CoreMessage) -> CoreReply {
    let step = handle_message(msg, "https://x.test", "/data", &Item::new(), &Item::new(), &None);
    match step {
        CoreStep::Store(r) => serve(store, r),
        CoreStep::Reply(r) => r,
        _ => panic!("another step"),
    }
}

#[test]
fn what_a_plugin_writes_it_reads_back() {
    let mut store = StoreMemory::with_collections(&["note"]);
    let mut itm = Item::new();
    itm.set_str("name", "a");
    let id = match ask(
        &mut store,
        CoreMessage::DbSetItem {
            collection: "note".to_string(),
            item: itm,
            merge: false,
        },
    ) {
        CoreReply::Id(id) => id,
        _ => panic!("no id"),
    };
    assert_eq!(id, 1);
    let mut more = Item::new();
    more.id = id;
    more.set_u64("time", 5);
    serve(
        &mut store,
        StoreRequest::SetItem {
            collection: "note".to_string(),
            item: more,
            merge: true,
        },
    );
    match ask(
        &mut store,
        CoreMessage::DbGetItem {
            collection: "note".to_string(),
            id,
        },
    ) {
        CoreReply::Record(Some(r)) => {
            assert_eq!(r.id, 1);
            assert_eq!(r.safe_str("name", ""), "a");
            assert_eq!(r.safe_u64("time", 0), 5);
        }
        _ => panic!("no record"),
    }
    match ask(
        &mut store,
        CoreMessage::DbDelItem {
            collection: "note".to_string(),
            id,
        },
    ) {
        CoreReply::Flag(gone) => assert!(gone),
        _ => panic!("no answer"),
    }
    assert_eq!(store.count("note"), 0);
    assert!(store.has_collection("note") && !store.has_collection("user"));
}

#[test]
fn plugins_are_told_about_the_server() {
    let mut store = StoreMemory::with_collections(&[]);
    match ask(&mut store, CoreMessage::GlobalsGetPublicUrl) {
        CoreReply::Text(t) => assert_eq!(t, "https://x.test"),
        _ => panic!("no text"),
    }
    let mut settings = Item::new();
    settings.set_str("k", "v");
    ask(&mut store, CoreMessage::GlobalsSetSettings { item: settings });
    match ask(&mut store, CoreMessage::GlobalsGetSettings) {
        CoreReply::Settings(s) => assert_eq!(s.safe_str("k", ""), "v"),
        _ => panic!("no settings"),
    }
    match ask(&mut store, CoreMessage::AuthLogin) {
        CoreReply::Outcome(p) => {
            assert!(!p.succeeded);
            assert_eq!(p.error, "auth_login not yet implemented");
        }
        _ => panic!("no outcome"),
    }
    let mut secrets = SecretStore::empty();
    let mut s = Item::new();
    s.set_str("name", "x");
    secrets.set(&s, false).unwrap();
    match handle_message(
        CoreMessage::SecretGet { id: 0 },
        "",
        "",
        &Item::new(),
        &Item::new(),
        &Some(secrets),
    ) {
        CoreStep::Reply(CoreReply::Record(r)) => assert!(r.is_some()),
        _ => panic!("no record"),
    }
}

#[test]
fn mail_is_sent_only_where_everything_is_set() {
    let mut settings = Item::new();
    assert!(send_email(&settings, "a@b", "s", "t").is_none());
    for k in ["smtp_server", "smtp_login", "smtp_password", "smtp_from"] {
        settings.set_str(k, k);
    }
    let m = send_email(&settings, "a@b", "s", "t").unwrap();
    assert_eq!(m.server, "smtp_server");
    assert_eq!(m.to, "a@b");
    assert!(send_email(&settings, "", "s", "t").is_none());
}

#[test]
fn a_write_merges_or_replaces() {
    let mut was = Item::new();
    was.set_str("a", "1");
    let mut new = Item::new();
    new.set_str("b", "2");
    let m = merged(&new, Some(&was), true);
    assert_eq!(m.strs.len(), 2);
    assert_eq!(merged(&new, Some(&was), false).strs.len(), 1);
    assert_eq!(storable(&new).strs.len(), 1);
    let mut store = StoreMemory::with_collections(&["user"]);
    store.seed("user", user_item("alice", "alice@example.com"));
    let all = store.get_all_items("user");
    assert!(find_user(&all, "Alice").is_some());
    assert!(find_user(&all, "bob").is_none());
}

#[test]
fn files_of_a_store_are_under_its_path() {
    let mut s = StoreLocal::new();
    s.path = "/srv/data".to_string();
    assert_eq!(s.get_credentials(), "/srv/data/credentials.json");
    assert_eq!(s.get_pickle(), "/srv/data/token.pickle");
    assert_eq!(s.internals_path(), "/srv/data/internals.js");
    assert_eq!(s.settings_path(), "/srv/data/settings.js");
    assert_eq!(s.data_path("user", 7), "/srv/data/collection/user/7/data.js");
    assert_eq!(s.counter_path("user"), "/srv/data/collection/user/cnt");
}

#[test]
fn a_store_in_memory_keeps_its_configuration() {
    let mut s = StoreMemory::with_collections(&["user"]);
    let mut internals = Item::new();
    internals.set_str("user_role_prefix", "is_");
    s.set_internals(internals);
    assert_eq!(s.get_internals().safe_str("user_role_prefix", ""), "is_");
    let mut settings = Item::new();
    settings.set_str("site_name", "Home");
    assert!(s.set_settings(settings));
    assert_eq!(s.get_settings().safe_str("site_name", ""), "Home");
}

#[test]
fn core_task_round_trips_through_core_handle() {
    let step = |msg| handle_message(msg, "", "", &Item::new(), &Item::new(), &None);

    let salt = match step(CoreMessage::AuthGetNewSalt) {
        CoreStep::NewSalt => random_token(16),
        _ => panic!("no salt was asked for"),
    };
    assert!(!salt.is_empty(), "salt should not be empty");

    let hashing = step(CoreMessage::AuthGetPasswordHash {
        password: "hello".to_string(),
        salt: salt.clone(),
    });
    let hash = match hashing {
        CoreStep::Hash { password, salt } => format!("{}${}", salt, digest(&(salt.clone() + &password))),
        _ => panic!("no hash was asked for"),
    };
    assert!(!hash.is_empty(), "hash should not be empty");

    let verify = |password: &str| {
        let asked = step(CoreMessage::AuthVerifyPassword {
            password: password.to_string(),
            hash: hash.clone(),
        });
        match asked {
            CoreStep::Verify { password, hash } => {
                let (salt, rest) = hash.split_once('$').unwrap();
                rest == digest(&(salt.to_string() + &password))
            }
            _ => panic!("no password was checked"),
        }
    };
    assert!(verify("hello"), "verify should accept the original password");
    assert!(!verify("wrong"), "verify should reject the wrong password");
}

#[test]
fn a_deleted_item_is_not_found_again() {
    let (mut files, mut store) = make_store_with_items(&[1, 11, 2]);
    assert_eq!(store.removed_path("test", 1), store.item_path("test", 1));
    let gone = format!("{}/", store.removed_path("test", 1));
    let mut left: StrMap<Item> = StrMap::new();
    for id in [1u64, 2, 11] {
        let path = store.data_path("test", id);
        if !path.starts_with(&gone) {
            left.insert(path.clone(), files.remove(&path).unwrap());
        }
    }
    assert!(store.del_item("test", 1));
    assert!(left.get(&store.data_path("test", 1)).is_none());
    assert!(left.get(&store.data_path("test", 11)).is_some());
    let lr = list(&left, &store, u64::MAX, u64::MAX, u64::MAX, u64::MAX);
    assert_eq!(sorted_ids(&lr), vec![2, 11]);
}
