//! The secret store.
use isabelle_core::collections::{IdMap, StrMap};
use isabelle_core::item::{Item, ProcessResult};
use isabelle_core::server::secret::{
    proc_err, proc_err_status, proc_ok, proc_ok_with_id, secret_del, secret_edit, secret_get,
    secret_list, Answer, SecretIdReq,
};
use isabelle_core::state::sealing::{check_key, decrypt_blob, encrypt_blob, frame_blob};
use isabelle_core::state::secrets::{ErrorKind, SecretError, SecretStore, KEY_LEN, NONCE_LEN};

const NAME_FIELD: &str = "name";
const HIDDEN_PLACEHOLDER: &str = "<hidden>";

fn item_named(name: &str, pairs: &[(&str, &str)]) -> Item {
    let mut it = Item::new();
    it.id = u64::MAX;
    it.strs.insert(NAME_FIELD.to_string(), name.to_string());
    for (k, v) in pairs {
        it.strs.insert((*k).to_string(), (*v).to_string());
    }
    it
}

fn expect_err<T>(r: Result<T, SecretError>) -> SecretError {
    match r {
        Ok(_) => panic!("expected Err"),
        Err(e) => e,
    }
}

/// The store as it is when what it holds was written out and read again.
fn reopened(store: &SecretStore) -> SecretStore {
    match SecretStore::load(store.entries(), store.next_id()) {
        Ok(s) => s,
        Err(e) => panic!("the store did not load: {}", e.message),
    }
}

fn str_of(it: &Item, k: &str) -> Option<String> {
    it.strs.get(k).cloned()
}

#[test]
fn rejects_key_file_of_wrong_size() {
    let e = check_key("k", &b"short".to_vec()).expect_err("a short key was taken");
    assert_eq!(e.kind, ErrorKind::InvalidData);
    assert_eq!(
        e.message,
        "secret key file k must contain exactly 32 bytes (got 5)"
    );
    assert!(check_key("k", &vec![0u8; KEY_LEN]).is_ok());
}

#[test]
fn first_insert_allocates_id_zero() {
    let mut store = SecretStore::empty();
    let id = store.set(&item_named("a", &[]), false).unwrap();
    assert_eq!(id, 0);
    assert_eq!(store.get(0).unwrap().id, 0, "item.id must equal map key");
}

#[test]
fn ids_are_sequential() {
    let mut store = SecretStore::empty();
    let id_a = store.set(&item_named("a", &[]), false).unwrap();
    let id_b = store.set(&item_named("b", &[]), false).unwrap();
    let id_c = store.set(&item_named("c", &[]), false).unwrap();
    assert_eq!((id_a, id_b, id_c), (0, 1, 2));
}

#[test]
fn item_id_field_matches_map_key_after_set() {
    let mut store = SecretStore::empty();
    for n in 0..5 {
        let id = store
            .set(&item_named(&format!("n{}", n), &[]), false)
            .unwrap();
        assert_eq!(store.get(id).unwrap().id, id);
    }
}

#[test]
fn explicit_id_is_honored_and_bumps_counter() {
    let mut store = SecretStore::empty();
    let mut it = item_named("a", &[]);
    it.id = 100;
    let id = store.set(&it, false).unwrap();
    assert_eq!(id, 100);
    let next = store.set(&item_named("b", &[]), false).unwrap();
    assert_eq!(next, 101);
}

#[test]
fn empty_name_is_rejected() {
    let mut store = SecretStore::empty();
    let mut it = Item::new();
    it.id = u64::MAX;
    let err = expect_err(store.set(&it, false));
    assert_eq!(err.kind, ErrorKind::InvalidInput);
}

#[test]
fn duplicate_name_on_insert_rejected() {
    let mut store = SecretStore::empty();
    store.set(&item_named("dup", &[("v", "1")]), false).unwrap();
    let err = expect_err(store.set(&item_named("dup", &[("v", "2")]), false));
    assert_eq!(err.kind, ErrorKind::AlreadyExists);
}

#[test]
fn rename_to_free_name_succeeds() {
    let mut store = SecretStore::empty();
    let id = store.set(&item_named("old", &[("v", "1")]), false).unwrap();
    let mut updated = item_named("new", &[("v", "2")]);
    updated.id = id;
    let id2 = store.set(&updated, false).unwrap();
    assert_eq!(id, id2, "rename must preserve id");
    assert!(store.get_by_name("old").is_none());
    assert_eq!(store.get_by_name("new").unwrap().id, id);
}

#[test]
fn rename_to_taken_name_rejected() {
    let mut store = SecretStore::empty();
    let id_a = store.set(&item_named("a", &[]), false).unwrap();
    let _id_b = store.set(&item_named("b", &[]), false).unwrap();
    let mut rename_a_to_b = item_named("b", &[("v", "x")]);
    rename_a_to_b.id = id_a;
    let err = expect_err(store.set(&rename_a_to_b, false));
    assert_eq!(err.kind, ErrorKind::AlreadyExists);
    assert_eq!(
        str_of(&store.get(id_a).unwrap(), NAME_FIELD),
        Some("a".into())
    );
}

#[test]
fn update_same_id_same_name_is_a_noop_collision_check() {
    let mut store = SecretStore::empty();
    let id = store.set(&item_named("a", &[("v", "1")]), false).unwrap();
    let mut update = item_named("a", &[("v", "2")]);
    update.id = id;
    let id2 = store.set(&update, false).unwrap();
    assert_eq!(id, id2);
    assert_eq!(str_of(&store.get(id).unwrap(), "v"), Some("2".into()));
}

#[test]
fn next_id_persists_across_reopen() {
    let mut store = SecretStore::empty();
    store.set(&item_named("a", &[]), false).unwrap();
    store.set(&item_named("b", &[]), false).unwrap();
    let mut store = reopened(&store);
    let id_c = store.set(&item_named("c", &[]), false).unwrap();
    assert_eq!(id_c, 2, "next id after reopen must continue counter");
}

#[test]
fn name_index_rebuilt_on_reopen() {
    let mut store = SecretStore::empty();
    store.set(&item_named("a", &[]), false).unwrap();
    let id_b = store.set(&item_named("b", &[("v", "x")]), false).unwrap();
    let store = reopened(&store);
    assert_eq!(store.get_by_name("b").unwrap().id, id_b);
    assert_eq!(
        str_of(&store.get_by_name("b").unwrap(), "v"),
        Some("x".into())
    );
}

#[test]
fn persists_full_item_fields() {
    let mut store = SecretStore::empty();
    let id = store
        .set(
            &item_named("svc", &[("login", "alice"), ("token", "tok-1")]),
            false,
        )
        .unwrap();
    let store = reopened(&store);
    let it = store.get(id).unwrap();
    assert_eq!(it.id, id);
    assert_eq!(str_of(&it, "login"), Some("alice".into()));
    assert_eq!(str_of(&it, "token"), Some("tok-1".into()));
}

#[test]
fn del_existing_removes_entry_and_frees_name() {
    let mut store = SecretStore::empty();
    let id = store.set(&item_named("a", &[]), false).unwrap();
    assert!(store.del(id));
    assert!(store.get(id).is_none());
    assert!(store.get_by_name("a").is_none());
    let id2 = store.set(&item_named("a", &[]), false).unwrap();
    assert_ne!(id2, id);
}

#[test]
fn del_missing_returns_false_without_writing() {
    let mut store = SecretStore::empty();
    assert!(!store.del(42));
    assert!(store.list().is_empty());
}

#[test]
fn del_persists_across_reopen() {
    let mut store = SecretStore::empty();
    let id = store.set(&item_named("a", &[]), false).unwrap();
    store.set(&item_named("b", &[]), false).unwrap();
    store.del(id);
    let store = reopened(&store);
    assert!(store.get(id).is_none());
    assert!(store.get_by_name("b").is_some());
}

#[test]
fn list_returns_id_name_sorted_by_name() {
    let mut store = SecretStore::empty();
    let id_z = store.set(&item_named("zeta", &[]), false).unwrap();
    let id_a = store.set(&item_named("alpha", &[]), false).unwrap();
    let id_m = store.set(&item_named("mu", &[]), false).unwrap();
    assert_eq!(
        store.list(),
        vec![
            (id_a, "alpha".into()),
            (id_m, "mu".into()),
            (id_z, "zeta".into())
        ]
    );
}

fn key() -> Vec<u8> {
    (0..KEY_LEN as u8).collect()
}

#[test]
fn nonce_is_random_per_write() {
    let blob1 = encrypt_blob(&key(), b"the same content").unwrap();
    let blob2 = encrypt_blob(&key(), b"the same content").unwrap();
    assert_ne!(blob1, blob2);
    assert_ne!(&blob1[..NONCE_LEN], &blob2[..NONCE_LEN]);
}

#[test]
fn store_blob_does_not_contain_plaintext() {
    let blob = encrypt_blob(&key(), b"token: SUPERSECRETVALUE12345").unwrap();
    assert!(!blob.windows(20).any(|w| w == b"SUPERSECRETVALUE1234"));
    assert!(!blob.windows(11).any(|w| w == b"SUPERSECRET"));
    assert_eq!(
        decrypt_blob(&key(), &blob).unwrap(),
        b"token: SUPERSECRETVALUE12345".to_vec()
    );
}

#[test]
fn tampered_blob_fails_to_decrypt() {
    let mut blob = encrypt_blob(&key(), b"{}").unwrap();
    blob[NONCE_LEN + 1] ^= 0xFF;
    assert_eq!(decrypt_blob(&key(), &blob).err().unwrap(), "aead::Error");
}

#[test]
fn truncated_blob_fails_to_decrypt() {
    let blob = encrypt_blob(&key(), b"{}").unwrap();
    assert!(decrypt_blob(&key(), &blob[..blob.len() - 4]).is_err());
    assert_eq!(
        decrypt_blob(&key(), &blob[..NONCE_LEN - 1]).err().unwrap(),
        "blob shorter than nonce"
    );
}

#[test]
fn wrong_key_cannot_decrypt() {
    let blob = encrypt_blob(&key(), b"{}").unwrap();
    assert!(decrypt_blob(&vec![0xAAu8; KEY_LEN], &blob).is_err());
}

#[test]
fn a_blob_is_the_nonce_and_the_sealed_bytes() {
    let nonce = [7u8; NONCE_LEN];
    let a = frame_blob(&key(), &nonce, b"abc").unwrap();
    let b = frame_blob(&key(), &nonce, b"abc").unwrap();
    assert_eq!(a, b);
    assert_eq!(&a[..NONCE_LEN], &nonce);
    assert_eq!(a.len(), 3 + 28);
    assert_ne!(&a[NONCE_LEN..NONCE_LEN + 3], b"abc");
}

#[test]
fn unicode_and_special_chars() {
    let mut store = SecretStore::empty();
    let payload = "пароль 🔐 with \"quotes\", \nnewlines";
    let id = store
        .set(&item_named("ключ", &[("значение", payload)]), false)
        .unwrap();
    let store2 = reopened(&store);
    assert_eq!(
        str_of(&store2.get(id).unwrap(), "значение"),
        Some(payload.into())
    );
    assert_eq!(store2.get_by_name("ключ").unwrap().id, id);
}

#[test]
fn many_keys_persist_with_correct_ids() {
    let mut store = SecretStore::empty();
    let ids: Vec<u64> = (0..200)
        .map(|i| {
            store
                .set(&item_named(&format!("n{:03}", i), &[]), false)
                .unwrap()
        })
        .collect();
    assert_eq!(ids, (0u64..200u64).collect::<Vec<_>>());
    let store = reopened(&store);
    assert_eq!(store.list().len(), 200);
    for (i, id) in ids.iter().enumerate() {
        assert_eq!(store.get(*id).unwrap().id, *id);
        assert_eq!(
            str_of(&store.get(*id).unwrap(), NAME_FIELD),
            Some(format!("n{:03}", i))
        );
    }
}

#[test]
fn migrates_legacy_string_keyed_format() {
    let mut legacy: StrMap<Item> = StrMap::new();
    let mut a = Item::new();
    a.strs.insert("login".into(), "alice".into());
    legacy.insert("svc-a".into(), a);
    let mut b = Item::new();
    b.strs.insert("token".into(), "tok-b".into());
    legacy.insert("svc-b".into(), b);

    let store = SecretStore::migrate(&legacy);
    let by_name_a = store.get_by_name("svc-a").unwrap();
    let by_name_b = store.get_by_name("svc-b").unwrap();
    assert_eq!(str_of(&by_name_a, "login"), Some("alice".into()));
    assert_eq!(str_of(&by_name_b, "token"), Some("tok-b".into()));
    assert_eq!(by_name_a.id, store.get(by_name_a.id).unwrap().id);
    assert_eq!(by_name_b.id, store.get(by_name_b.id).unwrap().id);
    assert_eq!(str_of(&by_name_a, NAME_FIELD), Some("svc-a".into()));
    assert_eq!(str_of(&by_name_b, NAME_FIELD), Some("svc-b".into()));
}

#[test]
fn corrupt_envelope_with_duplicate_names_rejected_on_load() {
    let mut entries: IdMap<Item> = IdMap::new();
    let mut a = Item::new();
    a.id = 0;
    a.strs.insert(NAME_FIELD.into(), "dup".into());
    entries.insert(0, a);
    let mut b = Item::new();
    b.id = 1;
    b.strs.insert(NAME_FIELD.into(), "dup".into());
    entries.insert(1, b);

    assert_eq!(
        expect_err(SecretStore::load(&entries, 2)).kind,
        ErrorKind::InvalidData
    );
}

#[test]
fn get_masked_replaces_secret_strs_with_placeholder() {
    let mut store = SecretStore::empty();
    let id = store
        .set(
            &item_named(
                "stripe",
                &[
                    ("secret_token", "sk_live_real"),
                    ("secret_refresh", "ref_real"),
                    ("description", "production"),
                ],
            ),
            false,
        )
        .unwrap();
    let masked = store.get_masked(id).unwrap();
    assert_eq!(masked.id, id);
    assert_eq!(
        masked.strs.get("secret_token").map(String::as_str),
        Some(HIDDEN_PLACEHOLDER)
    );
    assert_eq!(
        masked.strs.get("secret_refresh").map(String::as_str),
        Some(HIDDEN_PLACEHOLDER)
    );
    assert_eq!(str_of(&masked, "description"), Some("production".into()));
    assert_eq!(str_of(&masked, NAME_FIELD), Some("stripe".into()));
}

#[test]
fn get_returns_raw_values_unmasked() {
    let mut store = SecretStore::empty();
    let id = store
        .set(&item_named("svc", &[("secret_token", "real")]), false)
        .unwrap();
    assert_eq!(
        str_of(&store.get(id).unwrap(), "secret_token"),
        Some("real".into())
    );
}

#[test]
fn masking_does_not_touch_non_strs_maps() {
    let mut store = SecretStore::empty();
    let mut it = item_named("svc", &[("secret_token", "real")]);
    it.bools.insert("secret_revoked".into(), true);
    it.u64s.insert("secret_expires_at".into(), 1735689600);
    let id = store.set(&it, false).unwrap();
    let masked = store.get_masked(id).unwrap();
    assert_eq!(
        masked.strs.get("secret_token").map(String::as_str),
        Some(HIDDEN_PLACEHOLDER)
    );
    assert_eq!(masked.bools.get("secret_revoked").copied(), Some(true));
    assert_eq!(
        masked.u64s.get("secret_expires_at").copied(),
        Some(1735689600)
    );
}

#[test]
fn masking_only_applies_to_keys_with_secret_prefix() {
    let mut store = SecretStore::empty();
    let id = store
        .set(
            &item_named(
                "svc",
                &[
                    ("secret_x", "hidden-this"),
                    ("Secret_y", "case-sensitive-no-mask"),
                    ("not_secret", "visible"),
                    ("api_secret", "visible-too"),
                ],
            ),
            false,
        )
        .unwrap();
    let masked = store.get_masked(id).unwrap();
    assert_eq!(
        masked.strs.get("secret_x").map(String::as_str),
        Some(HIDDEN_PLACEHOLDER)
    );
    assert_eq!(
        str_of(&masked, "Secret_y"),
        Some("case-sensitive-no-mask".into())
    );
    assert_eq!(str_of(&masked, "not_secret"), Some("visible".into()));
    assert_eq!(str_of(&masked, "api_secret"), Some("visible-too".into()));
}

#[test]
fn hidden_placeholder_on_update_preserves_existing_secret() {
    let mut store = SecretStore::empty();
    let id = store
        .set(
            &item_named(
                "svc",
                &[("secret_token", "REAL_TOKEN"), ("description", "old")],
            ),
            false,
        )
        .unwrap();
    let mut returned = store.get_masked(id).unwrap();
    returned.strs.insert("description".into(), "new".into());
    store.set(&returned, true).unwrap();
    let raw = store.get(id).unwrap();
    assert_eq!(
        str_of(&raw, "secret_token"),
        Some("REAL_TOKEN".into()),
        "<hidden> placeholder must preserve the existing secret value"
    );
    assert_eq!(str_of(&raw, "description"), Some("new".into()));
}

#[test]
fn real_value_for_secret_field_overwrites() {
    let mut store = SecretStore::empty();
    let id = store
        .set(&item_named("svc", &[("secret_token", "OLD")]), false)
        .unwrap();
    let mut update = item_named("svc", &[("secret_token", "NEW")]);
    update.id = id;
    store.set(&update, true).unwrap();
    assert_eq!(
        str_of(&store.get(id).unwrap(), "secret_token"),
        Some("NEW".into())
    );
}

#[test]
fn hidden_placeholder_on_insert_drops_field() {
    let mut store = SecretStore::empty();
    let id = store
        .set(
            &item_named(
                "svc",
                &[("secret_token", HIDDEN_PLACEHOLDER), ("description", "x")],
            ),
            true,
        )
        .unwrap();
    let raw = store.get(id).unwrap();
    assert!(
        raw.strs.get("secret_token").is_none(),
        "<hidden> on a brand-new entry must drop the field"
    );
    assert_eq!(str_of(&raw, "description"), Some("x".into()));
}

#[test]
fn merge_default_preserves_untouched_non_secret_fields() {
    let mut store = SecretStore::empty();
    let id = store
        .set(
            &item_named(
                "svc",
                &[
                    ("secret_token", "REAL"),
                    ("description", "keep-me"),
                    ("env", "prod"),
                ],
            ),
            false,
        )
        .unwrap();
    let mut update = Item::new();
    update.id = id;
    update.strs.insert("env".into(), "staging".into());
    store.set(&update, true).unwrap();
    let raw = store.get(id).unwrap();
    assert_eq!(str_of(&raw, "env"), Some("staging".into()));
    assert_eq!(str_of(&raw, "description"), Some("keep-me".into()));
    assert_eq!(str_of(&raw, "secret_token"), Some("REAL".into()));
    assert_eq!(str_of(&raw, NAME_FIELD), Some("svc".into()));
}

#[test]
fn replace_mode_with_hidden_still_preserves_secret() {
    let mut store = SecretStore::empty();
    let id = store
        .set(
            &item_named("svc", &[("secret_token", "REAL"), ("description", "old")]),
            false,
        )
        .unwrap();
    let mut replace = item_named(
        "svc",
        &[("secret_token", HIDDEN_PLACEHOLDER), ("description", "new")],
    );
    replace.id = id;
    store.set(&replace, false).unwrap();
    let raw = store.get(id).unwrap();
    assert_eq!(str_of(&raw, "secret_token"), Some("REAL".into()));
    assert_eq!(str_of(&raw, "description"), Some("new".into()));
}

#[test]
fn replace_mode_drops_unmentioned_non_secret_fields() {
    let mut store = SecretStore::empty();
    let id = store
        .set(
            &item_named(
                "svc",
                &[
                    ("secret_token", "REAL"),
                    ("description", "old"),
                    ("env", "p"),
                ],
            ),
            false,
        )
        .unwrap();
    let mut replace = item_named("svc", &[("secret_token", HIDDEN_PLACEHOLDER)]);
    replace.id = id;
    store.set(&replace, false).unwrap();
    let raw = store.get(id).unwrap();
    assert_eq!(str_of(&raw, "secret_token"), Some("REAL".into()));
    assert!(raw.strs.get("description").is_none());
    assert!(raw.strs.get("env").is_none());
}

#[test]
fn rename_via_merge_preserves_secret() {
    let mut store = SecretStore::empty();
    let id = store
        .set(&item_named("old", &[("secret_token", "REAL")]), false)
        .unwrap();
    let mut rename = Item::new();
    rename.id = id;
    rename.strs.insert(NAME_FIELD.into(), "new".into());
    store.set(&rename, true).unwrap();
    let raw = store.get(id).unwrap();
    assert_eq!(str_of(&raw, NAME_FIELD), Some("new".into()));
    assert_eq!(str_of(&raw, "secret_token"), Some("REAL".into()));
    assert!(store.get_by_name("old").is_none());
    assert_eq!(store.get_by_name("new").unwrap().id, id);
}

#[test]
fn merge_update_without_name_field_keeps_existing_name() {
    let mut store = SecretStore::empty();
    let id = store
        .set(&item_named("svc", &[("description", "x")]), false)
        .unwrap();
    let mut update = Item::new();
    update.id = id;
    update.strs.insert("description".into(), "y".into());
    store.set(&update, true).unwrap();
    let raw = store.get(id).unwrap();
    assert_eq!(str_of(&raw, NAME_FIELD), Some("svc".into()));
    assert_eq!(str_of(&raw, "description"), Some("y".into()));
}

fn parse(a: Answer) -> (u16, ProcessResult) {
    match a {
        Answer::Outcome(status, p) => (status, p),
        _ => panic!("not an outcome"),
    }
}

#[test]
fn a_missing_secret_answers_404_with_a_parseable_body() {
    let (status, result) = parse(proc_err_status(404, "no such secret"));
    assert_eq!(status, 404);
    assert!(!result.succeeded);
    assert_eq!(result.error, "no such secret");
}

#[test]
fn an_ordinary_failure_still_answers_200() {
    let (status, result) = parse(proc_err("secret store is not initialized"));
    assert_eq!(status, 200);
    assert!(!result.succeeded);
    assert_eq!(result.error, "secret store is not initialized");
}

#[test]
fn success_is_reported_as_success() {
    let (status, result) = parse(proc_ok());
    assert_eq!(status, 200);
    assert!(result.succeeded);
    assert_eq!(result.error, "");
    let (_, with_id) = parse(proc_ok_with_id(12));
    assert_eq!(with_id.data.get("id").map(String::as_str), Some("12"));
}

#[test]
fn only_an_administrator_reaches_secrets() {
    let internals = Item::new();
    let mut admin = Item::new();
    admin.set_bool("role_is_active", true);
    admin.set_bool("role_is_admin", true);
    let admin = Some(admin);
    let mut store = Some(SecretStore::empty());
    let body = item_named("a", &[("secret_token", "REAL")]);

    assert!(matches!(
        secret_edit(&internals, &None, &mut store, &body),
        Answer::Forbidden
    ));
    assert!(matches!(secret_list(&internals, &None, &store), Answer::Forbidden));

    let (_, made) = parse(secret_edit(&internals, &admin, &mut store, &body));
    assert!(made.succeeded);
    assert_eq!(made.data.get("id").map(String::as_str), Some("0"));
    match secret_get(&internals, &admin, &store, &SecretIdReq { id: 0 }) {
        Answer::Record(r) => {
            assert_eq!(r.safe_str("secret_token", ""), HIDDEN_PLACEHOLDER)
        }
        _ => panic!("no record"),
    }
    match secret_list(&internals, &admin, &store) {
        Answer::Names(n) => assert_eq!(n, vec![(0, "a".to_string())]),
        _ => panic!("no names"),
    }
    let (status, gone) = parse(secret_del(&internals, &admin, &mut store, &SecretIdReq { id: 9 }));
    assert_eq!(status, 404);
    assert!(!gone.succeeded);
    let (_, done) = parse(secret_del(&internals, &admin, &mut store, &SecretIdReq { id: 0 }));
    assert!(done.succeeded);

    let mut nowhere: Option<SecretStore> = None;
    let (_, none) = parse(secret_edit(&internals, &admin, &mut nowhere, &body));
    assert_eq!(none.error, "secret store is not initialized");
}
