//! API tokens.
use isabelle_core::collections::IdMap;
use isabelle_core::item::Item;
use isabelle_core::server::api_token::{
    api_token_issue, api_token_list, api_token_revoke, assemble, check, collection_of,
    from_header, generate_secret, hash, hidden_from_item_api, issue, issue_record,
    item_route_verb, now, parse, resolve, revoke, scope_allows, scopes_of, seconds_or_zero,
    shown_part, subject, touch, IssueRequest, Presented, Rejected, RevokeRequest, COLLECTION, FIELD_CREATED, FIELD_EXPIRES,
    FIELD_HASH, FIELD_LAST_USED, FIELD_NAME, FIELD_REVOKED, FIELD_SCOPES, FIELD_SHOWN, FIELD_USER,
};

const PROVIDERS_SCOPES: [&str; 3] = ["read", "write", "admin"];

fn stored(secret: &str) -> Item {
    let mut itm = Item::new();
    itm.id = 7;
    itm.set_str(FIELD_HASH, &hash(secret));
    itm.set_id(FIELD_USER, 2);
    itm
}

#[test]
fn a_token_survives_the_round_trip_it_is_made_for() {
    let secret = generate_secret();
    let whole = assemble(7, &secret);
    let read = parse(&whole).expect("a token we just made must parse");
    assert_eq!(read.id, 7);
    assert_eq!(read.secret, secret);
}

#[test]
fn two_secrets_are_never_the_same() {
    let a = generate_secret();
    let b = generate_secret();
    assert_ne!(a, b);
    assert!(a.len() >= 40, "a secret shorter than this is guessable");
}

#[test]
fn anything_that_is_not_ours_is_left_alone() {
    for other in [
        "",
        "mid_",
        "mid_7",
        "mid_7_",
        "mid_seven_abc",
        "ghp_realtokenbutnotours",
        "Bearer something",
    ] {
        assert_eq!(parse(other), None, "{other:?} was read as a token");
    }
}

#[test]
fn the_scheme_is_read_case_insensitively_and_nothing_else_is() {
    let secret = "abc";
    let whole = assemble(3, secret);
    for spelling in ["Bearer", "bearer", "BEARER"] {
        let got = from_header(&format!("{spelling} {whole}"));
        assert_eq!(got.map(|p| p.id), Some(3), "{spelling} was not accepted");
    }
    assert_eq!(from_header(&format!("Basic {whole}")), None);
    assert_eq!(from_header(&whole), None, "a bare token is not a header");
}

#[test]
fn a_good_secret_passes_and_a_wrong_one_does_not() {
    let record = stored("right");
    assert_eq!(check(&record, "right", 1_000), Ok(()));
    assert_eq!(check(&record, "wrong", 1_000), Err(Rejected::WrongSecret));
    assert_eq!(check(&Item::new(), "", 1_000), Err(Rejected::WrongSecret));
}

#[test]
fn a_revoked_token_is_refused_before_its_secret_is_even_read() {
    let mut record = stored("right");
    record.set_bool(FIELD_REVOKED, true);
    assert_eq!(check(&record, "right", 1_000), Err(Rejected::Revoked));
}

#[test]
fn expiry_is_a_moment_not_a_suggestion() {
    let mut record = stored("right");
    record.set_u64(FIELD_EXPIRES, 1_000);
    assert_eq!(check(&record, "right", 999), Ok(()));
    assert_eq!(check(&record, "right", 1_000), Err(Rejected::Expired));
    assert_eq!(check(&record, "right", 1_001), Err(Rejected::Expired));
}

#[test]
fn no_expiry_means_no_expiry() {
    let record = stored("right");
    assert_eq!(check(&record, "right", u64::MAX), Ok(()));
}

#[test]
fn a_scope_is_needed_and_the_right_one() {
    let granted = vec!["read".to_string()];
    assert_eq!(
        scope_allows("/test/run", &granted, Some("read")),
        Ok(()),
        "a route declaring a scope the token holds"
    );
    assert!(scope_allows("/test/run", &granted, Some("runs")).is_err());
}

#[test]
fn the_item_routes_are_named_by_what_they_do_not_by_their_path() {
    assert_eq!(item_route_verb("/itm/list"), Some("read"));
    assert_eq!(item_route_verb("/itm/edit"), Some("write"));
    assert_eq!(item_route_verb("/itm/del"), Some("write"));
    assert_eq!(item_route_verb("/test/run"), None);

    let everything = vec!["read".to_string(), "write".to_string()];
    assert!(scope_allows("/itm/edit", &everything, None).is_err());
}

#[test]
fn the_collection_is_read_the_way_the_handler_reads_it() {
    assert_eq!(
        collection_of("collection=test&sort_key=id").as_deref(),
        Some("test")
    );
    assert_eq!(
        collection_of("id=1&collection=analysis").as_deref(),
        Some("analysis")
    );
    assert_eq!(collection_of("sort_key=id"), None);
    assert_eq!(collection_of("collection="), None);
    assert_eq!(collection_of(""), None);
}

#[test]
fn the_token_collection_is_not_reachable_as_items() {
    assert!(hidden_from_item_api(COLLECTION));
    for other in ["user", "note", "api_tokens", "api_token_x", "", "token"] {
        assert!(!hidden_from_item_api(other), "{other} was hidden too");
    }
}

#[test]
fn an_invented_scope_opens_nothing() {
    let invented = vec![
        "wat".to_string(),
        "*".to_string(),
        "admin".to_string(),
        "never".to_string(),
        String::new(),
    ];
    assert!(scope_allows("/secret/list", &invented, None).is_err());
    assert!(scope_allows("/anything", &invented, None).is_err());
    assert!(scope_allows("/anything", &invented, Some("read")).is_err());
    assert!(scope_allows("/anything", &[], Some("read")).is_err());
}

#[test]
fn the_forbidden_list_does_not_bend_for_a_powerful_owner() {
    let everything: Vec<String> = PROVIDERS_SCOPES.iter().map(|s| s.to_string()).collect();
    for path in ["/secret/list", "/api_token/issue", "/system/update"] {
        assert!(
            scope_allows(path, &everything, Some("read")).is_err(),
            "{path} was reachable"
        );
    }
}

#[test]
fn a_route_in_no_scope_is_reachable_by_no_token() {
    let everything = vec!["read".to_string(), "write".to_string(), "runs".to_string()];
    assert!(scope_allows("/something/new", &everything, None).is_err());
}

#[test]
fn the_forbidden_routes_are_forbidden_to_every_token() {
    let everything = vec!["read".to_string(), "write".to_string(), "admin".to_string()];
    for path in [
        "/secret/list",
        "/secret/get",
        "/setting/edit",
        "/api_token/issue",
        "/system/update",
        "/user/pwd",
    ] {
        let refused = scope_allows(path, &everything, Some("read"));
        assert!(refused.is_err(), "{path} was reachable with a token");
        assert!(
            refused.unwrap_err().contains("never"),
            "{path} was refused for the wrong reason"
        );
    }
}

#[test]
fn scopes_are_read_off_the_record_and_a_broken_list_grants_nothing() {
    let mut record = Item::new();
    record.set_str(FIELD_SCOPES, r#"["read","runs"]"#);
    assert_eq!(scopes_of(&record), vec!["read", "runs"]);

    record.set_str(FIELD_SCOPES, "not json at all");
    assert!(scopes_of(&record).is_empty());
    assert!(scopes_of(&Item::new()).is_empty());
}

#[test]
fn only_the_opening_of_a_secret_is_ever_kept_for_display() {
    let secret = generate_secret();
    let shown = shown_part(&secret);
    assert_eq!(shown.chars().count(), 6);
    assert!(secret.starts_with(&shown));
    assert!(
        shown.len() < secret.len() / 4,
        "too much of it is on screen"
    );
}

#[test]
fn the_hash_of_a_secret_is_its_digest_in_hex() {
    assert_eq!(
        hash("abc"),
        "ba7816bf8f01cfea414140de5dae2223b00361a396177a9cb410ff61f20015ad"
    );
}

fn request(name: &str, scopes: &[&str], days: u64) -> IssueRequest {
    IssueRequest {
        name: name.to_string(),
        scopes: scopes.iter().map(|s| s.to_string()).collect(),
        expires_days: days,
    }
}

#[test]
fn an_issued_token_is_accepted_and_grants_what_was_asked() {
    let (mut record, secret) = issue(2, &request(" ci ", &["read", "runs"], 0)).unwrap();
    record.id = 5;
    assert_eq!(record.safe_str(FIELD_NAME, ""), "ci");
    assert_eq!(record.safe_id(FIELD_USER, 0), 2);
    assert_eq!(scopes_of(&record), vec!["read", "runs"]);
    assert_eq!(check(&record, &secret, 1), Ok(()));
    assert!(record.safe_u64(FIELD_CREATED, 0) > 1_600_000_000);
    let presented = parse(&assemble(5, &secret)).unwrap();
    assert_eq!(resolve(Some(record), &presented, 1).unwrap().id, 5);
}

#[test]
fn a_record_ends_after_its_days() {
    let record = issue_record(2, &request("ci", &["read"], 2), "s3cret", 1_000).unwrap();
    assert_eq!(record.safe_u64(FIELD_EXPIRES, 0), 1_000 + 2 * 86_400);
    assert_eq!(record.safe_str(FIELD_SHOWN, ""), "s3cret");
    let far = issue_record(2, &request("ci", &["read"], u64::MAX), "s3cret", 1_000).unwrap();
    assert_eq!(far.safe_u64(FIELD_EXPIRES, 0), u64::MAX);
}

#[test]
fn a_token_needs_a_name_and_scopes() {
    assert_eq!(
        issue(2, &request("  ", &["read"], 0)).err().unwrap(),
        "a token needs a name, so that it can be told from the others"
    );
    assert_eq!(
        api_token_issue(Some(2), &request("ci", &[], 0)).err().unwrap(),
        "a token with no scopes could not be used for anything"
    );
    assert_eq!(
        api_token_issue(None, &request("ci", &["read"], 0)).err().unwrap(),
        "no such account"
    );
}

#[test]
fn an_unknown_token_is_not_resolved() {
    let presented = Presented {
        id: 9,
        secret: "x".to_string(),
    };
    assert!(matches!(
        resolve(None, &presented, 1),
        Err(Rejected::Unknown)
    ));
    assert_eq!(Rejected::Unknown.reason(), "no such token");
    assert_eq!(Rejected::OwnerInactive.reason(), "owner is inactive or gone");
}

#[test]
fn the_mark_of_last_use_is_kept_coarse() {
    let mut record = stored("right");
    let update = touch(&record, 1_000).expect("a first use is noted");
    assert_eq!(update.safe_u64(FIELD_LAST_USED, 0), 1_000);
    record.merge(&update);
    assert!(touch(&record, 1_030).is_none());
    assert!(touch(&record, 1_061).is_some());
    assert_eq!(check(&record, "right", 1_000), Ok(()));
}

#[test]
fn tokens_are_listed_for_their_owner_newest_first() {
    let mut all: IdMap<Item> = IdMap::new();
    for (id, owner, created) in [(1, 2, 10), (2, 3, 20), (3, 2, 30)] {
        let mut r = Item::new();
        r.id = id;
        r.set_id(FIELD_USER, owner);
        r.set_u64(FIELD_CREATED, created);
        all.insert(id, r);
    }
    let mine = api_token_list(&all, Some(2), false, None).unwrap();
    assert_eq!(mine.iter().map(|t| t.id).collect::<Vec<u64>>(), vec![3, 1]);
    assert_eq!(
        api_token_list(&all, Some(2), false, Some(3)).err().unwrap(),
        "that is somebody else's token"
    );
    let theirs = api_token_list(&all, Some(2), true, Some(3)).unwrap();
    assert_eq!(theirs.len(), 1);
}

#[test]
fn only_the_owner_or_an_administrator_revokes() {
    let record = stored("right");
    let req = RevokeRequest { id: 7 };
    assert_eq!(
        api_token_revoke(&req, None, Some(2), true).err().unwrap(),
        "no such token"
    );
    assert!(api_token_revoke(&req, Some(&record), Some(4), false).is_err());
    assert!(api_token_revoke(&req, Some(&record), Some(4), true).is_ok());
    let update = api_token_revoke(&req, Some(&record), Some(2), false).unwrap();
    let mut after = record.clone();
    after.merge(&update);
    assert_eq!(check(&after, "right", 1), Err(Rejected::Revoked));
    assert_eq!(revoke(7).id, 7);
    assert_eq!(subject(None, true, Some(1)).err().unwrap(), "no such account");
}

#[test]
fn a_clock_before_the_epoch_reads_as_zero() {
    assert_eq!(seconds_or_zero(Some(12)), 12);
    assert_eq!(seconds_or_zero(None), 0);
    assert!(now() > 1_600_000_000);
}
