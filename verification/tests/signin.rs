//! Signing in through a provider or a directory, and setting either up.
use isabelle_core::item::Item;
use isabelle_core::json::Json;
use isabelle_core::server::auth_config::{
    admin_view, apply_ldap_update, apply_update, auth_config_forget, auth_config_save, found_in,
    ldap_admin_view, way_of, ConfigUpdate, Way, LDAP_SECRET,
};
use isabelle_core::server::oauth::{
    auth_providers, auth_start, callback_in, callback_of, finish, flow_cookie, next_in, next_of,
    receive, redirect_uri, refuse, resolve, safe_next, session_stamp, site_url, start_flow,
    subject_key, Arrival, PendingFlow, PendingFlows, Refusal, Resolution, Settled, Start,
    FLOW_TTL_SECS, MAX_FLOWS,
};
use isabelle_core::server::signin::LdapConfig;
use isabelle_core::state::secrets::SecretStore;
use isabelle_core::util::oidc::{Identity, Provider, ProviderConfig};

fn identity(email: &str, verified: bool, subject: &str) -> Identity {
    Identity {
        subject: subject.to_string(),
        email: email.to_string(),
        email_verified: verified,
        name: "Someone".to_string(),
    }
}

fn account(id: u64, active: bool, subject: Option<&str>) -> Item {
    let mut itm = Item::new();
    itm.id = id;
    itm.set_str("email", "someone@example.com");
    itm.set_bool("role_is_active", active);
    if let Some(s) = subject {
        itm.set_str(&subject_key(Provider::Google), s);
    }
    itm
}

#[test]
fn a_destination_is_reduced_to_somewhere_on_this_site() {
    assert_eq!(safe_next("/products"), "/products");
    assert_eq!(safe_next("/a?b=c"), "/a?b=c");
    assert_eq!(safe_next(""), "/");
    assert_eq!(safe_next("https://evil.test/"), "/");
    assert_eq!(safe_next("//evil.test/"), "/");
    assert_eq!(safe_next("/\\evil.test/"), "/");
    assert_eq!(safe_next("/a\\b"), "/");
    assert_eq!(safe_next("/a\nSet-Cookie: x=y"), "/");
}

#[test]
fn an_address_the_provider_will_not_vouch_for_is_not_an_identity() {
    assert_eq!(
        resolve(
            None,
            &identity("someone@example.com", false, "sub-1"),
            Provider::Google,
            true
        ),
        Resolution::Refuse(Refusal::Unverified)
    );
    assert_eq!(
        resolve(None, &identity("", true, "sub-1"), Provider::Google, true),
        Resolution::Refuse(Refusal::Unverified)
    );
}

#[test]
fn an_unknown_address_registers_only_where_registration_is_open() {
    let id = identity("someone@example.com", true, "sub-1");
    assert_eq!(
        resolve(None, &id, Provider::Google, true),
        Resolution::Create
    );
    assert_eq!(
        resolve(None, &id, Provider::Google, false),
        Resolution::Refuse(Refusal::RegistrationClosed)
    );
}

#[test]
fn a_deactivated_account_cannot_be_signed_into() {
    let usr = account(7, false, None);
    assert_eq!(
        resolve(
            Some(&usr),
            &identity("someone@example.com", true, "sub-1"),
            Provider::Google,
            true
        ),
        Resolution::Refuse(Refusal::Inactive)
    );
}

#[test]
fn a_verified_address_signs_into_the_account_that_owns_it() {
    let usr = account(7, true, None);
    assert_eq!(
        resolve(
            Some(&usr),
            &identity("someone@example.com", true, "sub-1"),
            Provider::Google,
            true
        ),
        Resolution::SignIn(7)
    );
}

#[test]
fn an_address_that_changed_hands_at_the_provider_cannot_take_the_record() {
    let usr = account(7, true, Some("sub-1"));
    assert_eq!(
        resolve(
            Some(&usr),
            &identity("someone@example.com", true, "sub-1"),
            Provider::Google,
            true
        ),
        Resolution::SignIn(7)
    );
    assert_eq!(
        resolve(
            Some(&usr),
            &identity("someone@example.com", true, "sub-2"),
            Provider::Google,
            true
        ),
        Resolution::Refuse(Refusal::Mismatched)
    );
}

#[test]
fn an_account_whose_login_is_someone_elses_address_is_not_that_someone() {
    let mut usr = Item::new();
    usr.id = 9;
    usr.set_str("login", "someone@example.com");
    usr.set_str("email", "impostor@example.net");
    usr.set_bool("role_is_active", true);
    assert_eq!(
        resolve(
            Some(&usr),
            &identity("someone@example.com", true, "sub-1"),
            Provider::Google,
            true
        ),
        Resolution::Refuse(Refusal::Mismatched)
    );
}

#[test]
fn a_record_written_in_mixed_case_is_still_the_same_account() {
    let mut usr = account(7, true, None);
    usr.set_str("email", "SomeOne@Example.COM");
    assert_eq!(
        resolve(
            Some(&usr),
            &identity("someone@example.com", true, "sub-1"),
            Provider::Google,
            true
        ),
        Resolution::SignIn(7)
    );
}

#[test]
fn each_provider_is_remembered_separately() {
    let usr = account(7, true, Some("google-sub"));
    assert_eq!(
        resolve(
            Some(&usr),
            &identity("someone@example.com", true, "apple-sub"),
            Provider::Apple,
            true
        ),
        Resolution::SignIn(7)
    );
}

#[test]
fn every_refusal_has_something_to_say() {
    for r in [
        Refusal::Denied,
        Refusal::Unverified,
        Refusal::RegistrationClosed,
        Refusal::Inactive,
        Refusal::Mismatched,
        Refusal::Failed,
    ] {
        assert!(!r.slug().is_empty());
        assert!(r.slug().chars().all(|c| c.is_ascii_lowercase() || c == '_'));
    }
}

fn blank_secret_box() {
    let current = ProviderConfig {
        client_id: "old-id".into(),
        client_secret: "kept".into(),
        ..ProviderConfig::blank()
    };
    let update = ConfigUpdate {
        client_id: Some("new-id".into()),
        client_secret: Some(String::new()),
        ..ConfigUpdate::blank("google")
    };
    let merged = apply_update(&current, &update);
    assert_eq!(merged.client_id, "new-id");
    assert_eq!(merged.client_secret, "kept");
}

fn typed_secret() {
    let current = ProviderConfig {
        client_secret: "old".into(),
        ..ProviderConfig::blank()
    };
    let update = ConfigUpdate {
        client_secret: Some("  new  ".into()),
        ..ConfigUpdate::blank("google")
    };
    assert_eq!(apply_update(&current, &update).client_secret, "new");
}

fn left_out() {
    let current = ProviderConfig {
        client_id: "id".into(),
        client_secret: "shh".into(),
        team_id: "T".into(),
        key_id: "K".into(),
        private_key: "PEM".into(),
    };
    let update = ConfigUpdate::blank("apple");
    assert_eq!(apply_update(&current, &update), current);
}

fn cleared() {
    let current = ProviderConfig {
        client_id: "id".into(),
        team_id: "T".into(),
        ..ProviderConfig::blank()
    };
    let update = ConfigUpdate {
        team_id: Some(String::new()),
        ..ConfigUpdate::blank("apple")
    };
    assert_eq!(apply_update(&current, &update).team_id, "");
}

#[test]
fn auth_config_a_blank_secret_box_means_unchanged_rather_than_delete() {
    blank_secret_box();
}

#[test]
fn auth_config_a_secret_that_was_typed_replaces_the_one_stored() {
    typed_secret();
}

#[test]
fn auth_config_what_a_form_leaves_out_it_leaves_alone() {
    left_out();
}

#[test]
fn auth_config_clearing_a_visible_field_clears_it() {
    cleared();
}

#[test]
fn oauth_a_blank_secret_box_means_unchanged_rather_than_delete() {
    let current = ProviderConfig {
        client_id: "old-id".into(),
        client_secret: "kept".into(),
        ..ProviderConfig::blank()
    };
    let update = ConfigUpdate {
        client_id: Some("new-id".into()),
        client_secret: Some(String::new()),
        ..ConfigUpdate::blank("google")
    };
    let merged = apply_update(&current, &update);
    assert_eq!(merged.client_id, "new-id");
    assert_eq!(merged.client_secret, "kept");
}

#[test]
fn oauth_a_secret_that_was_typed_replaces_the_one_stored() {
    let current = ProviderConfig {
        client_secret: "old".into(),
        ..ProviderConfig::blank()
    };
    let update = ConfigUpdate {
        client_secret: Some("  new  ".into()),
        ..ConfigUpdate::blank("google")
    };
    assert_eq!(apply_update(&current, &update).client_secret, "new");
}

#[test]
fn oauth_what_a_form_leaves_out_it_leaves_alone() {
    let current = ProviderConfig {
        client_id: "id".into(),
        client_secret: "shh".into(),
        team_id: "T".into(),
        key_id: "K".into(),
        private_key: "PEM".into(),
    };
    let update = ConfigUpdate::blank("apple");
    assert_eq!(apply_update(&current, &update), current);
}

#[test]
fn oauth_clearing_a_visible_field_clears_it() {
    let current = ProviderConfig {
        client_id: "id".into(),
        team_id: "T".into(),
        ..ProviderConfig::blank()
    };
    let update = ConfigUpdate {
        team_id: Some(String::new()),
        ..ConfigUpdate::blank("apple")
    };
    assert_eq!(apply_update(&current, &update).team_id, "");
}

fn directory() -> LdapConfig {
    LdapConfig {
        url: String::new(),
        bind_dn: String::new(),
        bind_password: String::new(),
        base_dn: String::new(),
        user_filter: String::new(),
        user_dn_template: String::new(),
        email_attribute: String::new(),
        name_attribute: String::new(),
        allow_plaintext: false,
    }
}

#[test]
fn a_blank_service_password_leaves_the_stored_one_alone() {
    let current = LdapConfig {
        url: "ldaps://old.example.com".into(),
        bind_password: "kept".into(),
        ..directory()
    };
    let merged = apply_ldap_update(
        &current,
        &ConfigUpdate {
            url: Some("ldaps://new.example.com".into()),
            bind_password: Some(String::new()),
            ..ConfigUpdate::blank("ldap")
        },
    );
    assert_eq!(merged.url, "ldaps://new.example.com");
    assert_eq!(merged.bind_password, "kept");
}

#[test]
fn the_plaintext_decision_is_not_reset_by_a_form_that_omits_it() {
    let current = LdapConfig {
        allow_plaintext: true,
        ..directory()
    };
    assert!(apply_ldap_update(&current, &ConfigUpdate::blank("ldap")).allow_plaintext);
    assert!(
        !apply_ldap_update(
            &current,
            &ConfigUpdate {
                allow_plaintext: Some(false),
                ..ConfigUpdate::blank("ldap")
            }
        )
        .allow_plaintext
    );
}

#[test]
fn a_typed_service_password_replaces_the_stored_one() {
    let current = LdapConfig {
        bind_password: "old".into(),
        ..directory()
    };
    let merged = apply_ldap_update(
        &current,
        &ConfigUpdate {
            bind_password: Some("  new  ".into()),
            ..ConfigUpdate::blank("ldap")
        },
    );
    assert_eq!(merged.bind_password, "new");
}

fn flow(started_at: u64) -> PendingFlow {
    PendingFlow {
        provider: Provider::Google,
        nonce: "n".into(),
        verifier: "v".into(),
        next: "/".into(),
        binding: "b".into(),
        started_at,
    }
}

#[test]
fn a_state_can_only_be_spent_once() {
    let mut flows = PendingFlows::new();
    flows.insert("st".into(), flow(100), 100);
    assert!(flows.take("st", 100).is_some());
    assert!(flows.take("st", 100).is_none());
}

#[test]
fn a_sign_in_left_unfinished_expires() {
    let mut flows = PendingFlows::new();
    flows.insert("st".into(), flow(100), 100);
    assert!(flows.take("st", 100 + FLOW_TTL_SECS - 1).is_some());

    flows.insert("st2".into(), flow(100), 100);
    assert!(flows.take("st2", 100 + FLOW_TTL_SECS).is_none());
}

#[test]
fn flows_in_flight_are_bounded() {
    let mut flows = PendingFlows::new();
    let total = MAX_FLOWS + 50;
    let now = 100 + total as u64;
    for i in 0..total {
        flows.insert(format!("st{}", i), flow(100 + i as u64), now);
    }
    assert!(flows.len() <= MAX_FLOWS, "{}", flows.len());
    assert!(flows.take(&format!("st{}", total - 1), now).is_some());
    assert!(flows.take("st0", now).is_none());
}

#[test]
fn abandoned_flows_do_not_accumulate() {
    let mut flows = PendingFlows::new();
    for i in 0..10 {
        flows.insert(format!("st{}", i), flow(100), 100);
    }
    flows.insert(
        "fresh".into(),
        flow(100 + FLOW_TTL_SECS),
        100 + FLOW_TTL_SECS,
    );
    assert_eq!(flows.len(), 1);
}

#[test]
fn starting_a_sign_in_puts_it_in_flight() {
    assert!(matches!(auth_start("nobody", "", true, 5), Start::NotFound));
    match auth_start("google", "next=%2Fproducts", false, 5) {
        Start::Refuse(next, why) => {
            assert_eq!(next, "/products");
            assert_eq!(why, Refusal::Failed);
        }
        _ => panic!("a provider that is not set up was used"),
    }
    match auth_start("apple", "next=//evil.test", true, 5) {
        Start::Go(state, f) => {
            assert_eq!(state.len(), 43);
            assert_ne!(state, f.nonce);
            assert_eq!(f.next, "/");
            assert_eq!(f.started_at, 5);
            assert_eq!(f.provider, Provider::Apple);
        }
        _ => panic!("a sign-in was not started"),
    }
    assert_eq!(next_of("next=%2Fa%3Fb%3Dc"), "/a?b=c");
}

#[test]
fn a_callback_is_taken_from_the_browser_that_started_it_alone() {
    let in_flight = || {
        let mut flows = PendingFlows::new();
        flows.insert("st".into(), flow(100), 100);
        flows
    };
    let cb = callback_of("code=c0de&state=st");
    assert_eq!(cb.code, "c0de");

    let mut flows = in_flight();
    assert!(matches!(
        receive(&mut flows, "google", &cb, "b", true, 101),
        Arrival::Exchange(_)
    ));
    // The state is spent.
    assert!(matches!(
        receive(&mut flows, "google", &cb, "b", true, 101),
        Arrival::Refuse(_, Refusal::Failed)
    ));

    let mut flows = in_flight();
    assert!(matches!(
        receive(&mut flows, "google", &cb, "other", true, 101),
        Arrival::Refuse(_, Refusal::Failed)
    ));
    let mut flows = in_flight();
    assert!(matches!(
        receive(&mut flows, "apple", &cb, "b", true, 101),
        Arrival::Refuse(_, Refusal::Failed)
    ));
    let mut flows = in_flight();
    let denied = callback_of("error=access_denied&state=st");
    assert!(matches!(
        receive(&mut flows, "google", &denied, "b", true, 101),
        Arrival::Refuse(_, Refusal::Denied)
    ));
    let mut flows = in_flight();
    assert!(matches!(
        receive(&mut flows, "nobody", &cb, "b", true, 101),
        Arrival::NotFound
    ));
}

#[test]
fn the_cookie_of_a_sign_in_crosses_sites_only_where_it_is_secure() {
    assert_eq!(flow_cookie(false), (true, true));
    assert_eq!(flow_cookie(true), (false, false));
}

#[test]
fn a_callback_that_nests_anything_says_nothing() {
    let cb = callback_of("state=st&code[0]=c0de");
    assert_eq!(cb.state, "");
    assert_eq!(cb.code, "");
    let read = Json::object().with_text("state", "st").with_text("more", "x");
    let cb = callback_in(&Some(read));
    assert_eq!(cb.state, "st");
    assert_eq!(cb.error, "");
    let read = Json::object().with_text("state", "st").with("error", Json::array());
    assert_eq!(callback_in(&Some(read)).state, "");
    assert_eq!(callback_in(&None).code, "");
    assert_eq!(next_in(&None), "/");
    assert_eq!(next_in(&Some(Json::object().with_text("next", "/a"))), "/a");
    assert_eq!(next_in(&Some(Json::object().with_text("next", "//evil"))), "/");
}

#[test]
fn a_known_identity_signs_in_or_registers() {
    let usr = account(7, true, None);
    match finish(
        Some(&usr),
        &identity("someone@example.com", true, "sub-1"),
        Provider::Google,
        &Item::new(),
    ) {
        Settled::SignIn(update) => {
            assert_eq!(update.id, 7);
            assert_eq!(update.safe_str(&subject_key(Provider::Google), ""), "sub-1");
        }
        _ => panic!("the account was not signed into"),
    }
    match finish(
        None,
        &identity("someone@example.com", true, "sub-1"),
        Provider::Google,
        &Item::new(),
    ) {
        Settled::Create(record) => {
            assert_eq!(record.id, u64::MAX);
            assert_eq!(record.safe_str("email", ""), "someone@example.com");
            assert!(record.safe_bool("role_is_active", false));
        }
        _ => panic!("no account was made"),
    }
    let mut closed = Item::new();
    closed.set_bool("allow_self_registration", false);
    assert!(matches!(
        finish(
            None,
            &identity("someone@example.com", true, "sub-1"),
            Provider::Google,
            &closed
        ),
        Settled::Refuse(Refusal::RegistrationClosed)
    ));
    assert!(matches!(
        finish(
            None,
            &identity("some{one@example.com", true, "sub-1"),
            Provider::Google,
            &Item::new()
        ),
        Settled::Refuse(Refusal::Failed)
    ));
    let mut stamped = account(7, true, None);
    stamped.set_u64("session_gen", 4);
    assert_eq!(session_stamp(Some(&stamped)), 4);
    assert_eq!(session_stamp(None), 0);
}

#[test]
fn addresses_are_built_on_the_public_one() {
    assert_eq!(site_url("https://x.test/", "/a"), "https://x.test/a");
    let back = refuse("https://x.test", "/a", Refusal::Denied);
    assert!(back.starts_with("https://x.test/"));
    assert!(back.contains(Refusal::Denied.slug()));
    assert_eq!(
        redirect_uri(None, "https://x.test/", Provider::Google),
        "https://x.test/api/auth/google/callback"
    );
    let mut stored = Item::new();
    stored.set_str("redirect_uri", "https://y.test/cb");
    assert_eq!(
        redirect_uri(Some(&stored), "https://x.test/", Provider::Google),
        "https://y.test/cb"
    );
}

fn text_at(j: &Json, k: &str) -> String {
    j.text_at(k, "?")
}

#[test]
fn saved_settings_are_read_back_without_their_secrets() {
    let mut store = Some(SecretStore::empty());
    let update = ConfigUpdate {
        client_id: Some("id".into()),
        client_secret: Some("s3cret".into()),
        ..ConfigUpdate::blank("google")
    };
    let r = auth_config_save(&mut store, "oauth_google", &update, None, true);
    assert!(r.succeeded, "{}", r.error);
    let stored = found_in(&store, "oauth_google").expect("nothing was stored");
    assert_eq!(stored.safe_str("client_id", ""), "id");
    let shown = admin_view(Provider::Google, Some(&stored), "https://x.test", "");
    assert_eq!(text_at(&shown, "client_id"), "id");

    // A form that leaves the secret blank keeps it.
    let again = ConfigUpdate {
        client_id: Some("id2".into()),
        client_secret: Some(String::new()),
        ..ConfigUpdate::blank("google")
    };
    assert!(auth_config_save(&mut store, "oauth_google", &again, None, true).succeeded);
    let stored = found_in(&store, "oauth_google").unwrap();
    assert_eq!(stored.safe_str("client_id", ""), "id2");
    assert_eq!(stored.safe_str("client_secret", ""), "s3cret");

    assert!(auth_config_forget(&mut store, "google", "oauth_google").succeeded);
    assert!(found_in(&store, "oauth_google").is_none());
    assert!(auth_config_forget(&mut store, "google", "oauth_google").succeeded);
}

#[test]
fn settings_that_cannot_be_used_are_not_stored() {
    let mut store = Some(SecretStore::empty());
    let update = ConfigUpdate {
        url: Some("ldaps://x".into()),
        ..ConfigUpdate::blank("ldap")
    };
    let r = auth_config_save(&mut store, "", &update, Some("No base."), true);
    assert!(!r.succeeded);
    assert!(found_in(&store, LDAP_SECRET).is_none());
    assert!(auth_config_save(&mut store, "", &update, None, true).succeeded);
    let stored = found_in(&store, LDAP_SECRET).unwrap();
    assert_eq!(text_at(&ldap_admin_view(Some(&stored), ""), "url"), "ldaps://x");

    let mut nowhere: Option<SecretStore> = None;
    let r = auth_config_forget(&mut nowhere, "ldap", "");
    assert_eq!(r.error, "The secret store is not available.");
    let r = auth_config_forget(&mut store, "nobody", "");
    assert_eq!(r.error, "There is no such provider.");
    assert_eq!(way_of(" ldap "), Some(Way::Directory));
    assert_eq!(way_of("apple"), Some(Way::By(Provider::Apple)));
    assert_eq!(way_of("nobody"), None);
}

fn offered(j: &Json) -> Vec<String> {
    match j.get("providers") {
        Some(Json::Array(v)) => v.iter().map(|p| text_at(p, "id")).collect(),
        _ => panic!("no list of providers"),
    }
}

#[test]
fn only_usable_providers_are_offered() {
    assert!(offered(&auth_providers(false, false)).is_empty());
    assert_eq!(offered(&auth_providers(true, false)), vec!["google"]);
    assert_eq!(offered(&auth_providers(true, true)), vec!["google", "apple"]);
}

#[test]
fn a_sign_in_keeps_what_was_drawn_for_it() {
    let started = start_flow(
        Provider::Google,
        "/a".to_string(),
        "state".to_string(),
        "nonce".to_string(),
        "verifier".to_string(),
        "binding".to_string(),
        9,
    );
    match started {
        Start::Go(state, f) => {
            assert_eq!(state, "state");
            assert_eq!(f.nonce, "nonce");
            assert_eq!(f.verifier, "verifier");
            assert_eq!(f.binding, "binding");
            assert_eq!(f.next, "/a");
            assert_eq!(f.started_at, 9);
            assert_eq!(f.provider, Provider::Google);
        }
        _ => panic!("a sign-in was not started"),
    }
}
