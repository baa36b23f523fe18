//! Accounts: registration, one-time codes, roles, sessions.
use isabelle_core::collections::StrMap;
use isabelle_core::item::Item;
use isabelle_core::server::api_token::{hash, FIELD_HASH, FIELD_SCOPES, FIELD_USER};
use isabelle_core::server::guards::{
    accept_api_token, check_presented, enforce_session_generation, presented_token,
    reject_ambiguous_framing,
};
use isabelle_core::server::login::{gen_otp, is_logged_in, login, logout, register};
use isabelle_core::server::user_control::{
    bump_otp_attempts, bump_session_generation, check_role, get_user, issue_otp,
    login_has_bad_symbols, login_is_acceptable, now_ts, otp_is_live, otp_may_be_issued,
    registration_target, role_is_granted, session_generation, RegistrationTarget,
    OTP_MAX_ATTEMPTS, OTP_RESEND_INTERVAL_SECS, OTP_TTL_SECS,
};
use isabelle_core::state::store::UserLookup;
use isabelle_core::state::store_memory::StoreMemory;

fn provisioned(id: u64) -> Item {
    let mut itm = Item::new();
    itm.id = id;
    itm.set_str("login", "admin");
    itm.set_str("email", "admin@example.org");
    itm.set_bool("role_is_admin", true);
    itm
}

fn self_registered(id: u64) -> Item {
    let mut itm = Item::new();
    itm.id = id;
    itm.set_str("login", "bob");
    itm.set_str("email", "bob@example.org");
    itm.set_bool("self_registered", true);
    itm
}

#[test]
fn free_login_and_email_create_a_record() {
    assert_eq!(
        registration_target(&None, &None),
        RegistrationTarget::Create
    );
}

#[test]
fn provisioned_account_cannot_be_claimed_by_login() {
    let existing = Some(provisioned(7));
    assert_eq!(
        registration_target(&existing, &None),
        RegistrationTarget::Taken
    );
}

#[test]
fn provisioned_account_cannot_be_claimed_by_email() {
    let existing = Some(provisioned(7));
    assert_eq!(
        registration_target(&None, &existing),
        RegistrationTarget::Taken
    );
}

#[test]
fn provisioned_account_is_not_resumable() {
    let existing = Some(provisioned(7));
    assert_eq!(
        registration_target(&existing, &existing),
        RegistrationTarget::Taken
    );
}

#[test]
fn unfinished_self_registration_resumes() {
    let existing = Some(self_registered(3));
    assert_eq!(
        registration_target(&existing, &existing),
        RegistrationTarget::Resume(3)
    );
}

#[test]
fn finished_self_registration_is_taken() {
    let mut itm = self_registered(3);
    itm.set_bool("logged_once", true);
    let existing = Some(itm);
    assert_eq!(
        registration_target(&existing, &existing),
        RegistrationTarget::Taken
    );
}

#[test]
fn login_and_email_of_different_records_is_taken() {
    let by_login = Some(self_registered(3));
    let by_email = Some(self_registered(4));
    assert_eq!(
        registration_target(&by_login, &by_email),
        RegistrationTarget::Taken
    );
}

fn with_otp(expires_at: u64, attempts: u64) -> Item {
    let mut itm = Item::new();
    itm.set_str("otp", "123456789");
    itm.set_u64("otp_expires_at", expires_at);
    itm.set_u64("otp_attempts", attempts);
    itm
}

#[test]
fn fresh_otp_is_live() {
    assert!(otp_is_live(&with_otp(1_000, 0), 999));
}

#[test]
fn expired_otp_is_dead() {
    assert!(!otp_is_live(&with_otp(1_000, 0), 1_000));
    assert!(!otp_is_live(&with_otp(1_000, 0), 1_001));
}

#[test]
fn legacy_otp_without_expiry_is_dead() {
    let mut itm = Item::new();
    itm.set_str("otp", "123456789");
    assert!(!otp_is_live(&itm, 0));
}

#[test]
fn exhausted_otp_is_dead() {
    assert!(otp_is_live(&with_otp(1_000, OTP_MAX_ATTEMPTS - 1), 0));
    assert!(!otp_is_live(&with_otp(1_000, OTP_MAX_ATTEMPTS), 0));
}

#[test]
fn empty_otp_is_dead() {
    let mut itm = with_otp(1_000, 0);
    itm.set_str("otp", "");
    assert!(!otp_is_live(&itm, 0));
}

#[test]
fn inactive_account_gets_no_otp() {
    let mut itm = Item::new();
    itm.set_bool("role_is_active", false);
    assert!(!otp_may_be_issued(&itm, 10_000));
}

#[test]
fn otp_issue_is_throttled() {
    let mut itm = Item::new();
    itm.set_bool("role_is_active", true);
    itm.set_u64("otp_issued_at", 10_000);
    assert!(!otp_may_be_issued(
        &itm,
        10_000 + OTP_RESEND_INTERVAL_SECS - 1
    ));
    assert!(otp_may_be_issued(&itm, 10_000 + OTP_RESEND_INTERVAL_SECS));
}

fn admin(active: bool) -> Item {
    let mut itm = Item::new();
    itm.id = 1;
    itm.set_bool("role_is_admin", true);
    itm.set_bool("role_is_active", active);
    itm
}

#[test]
fn active_admin_holds_the_admin_role() {
    assert!(role_is_granted(&admin(true), "role_is_", "admin"));
}

#[test]
fn deactivated_admin_holds_no_roles() {
    assert!(!role_is_granted(&admin(false), "role_is_", "admin"));
}

#[test]
fn missing_active_flag_grants_nothing() {
    let mut itm = Item::new();
    itm.set_bool("role_is_admin", true);
    assert!(!role_is_granted(&itm, "role_is_", "admin"));
}

#[test]
fn active_alone_grants_no_role() {
    let mut itm = Item::new();
    itm.set_bool("role_is_active", true);
    assert!(!role_is_granted(&itm, "role_is_", "admin"));
}

#[test]
fn role_prefix_is_configurable_but_active_is_not() {
    let mut itm = Item::new();
    itm.set_bool("role_is_active", true);
    itm.set_bool("perm_admin", true);
    assert!(role_is_granted(&itm, "perm_", "admin"));
    itm.set_bool("role_is_active", false);
    assert!(!role_is_granted(&itm, "perm_", "admin"));
}

#[test]
fn logins_that_cannot_be_looked_up_are_rejected() {
    assert!(login_is_acceptable("bob"));
    assert!(login_is_acceptable("bob@example.org"));
    assert!(!login_is_acceptable(""));
    assert!(!login_is_acceptable("bob$"));
    assert!(!login_is_acceptable("{\"$ne\": null}"));
}

fn alice() -> Item {
    let mut itm = Item::new();
    itm.id = 1;
    itm.set_str("login", "alice");
    itm.set_str("email", "alice@example.org");
    itm.set_str("password", "hash");
    itm.set_bool("role_is_active", true);
    itm
}

#[test]
fn registration_creates_a_marked_active_account_and_only_that() {
    let r = register("bob", "bob@example.org", "", &Item::new(), &None, &None);
    assert!(r.answer.succeeded);
    let w = r.write.expect("nothing was stored");
    assert_eq!(w.id, u64::MAX);
    assert_eq!(w.safe_str("login", ""), "bob");
    assert_eq!(w.safe_str("email", ""), "bob@example.org");
    assert!(w.safe_bool("self_registered", false));
    assert!(w.safe_bool("role_is_active", false));

    let taken = register("admin", "x@y.z", "", &Item::new(), &Some(provisioned(7)), &None);
    assert!(!taken.answer.succeeded);
    assert_eq!(taken.answer.error, "Login is already used");
    assert!(taken.write.is_none());

    let bad = register("bob$", "x@y.z", "", &Item::new(), &None, &None);
    assert_eq!(bad.answer.error, "Invalid login or email");

    let mut closed = Item::new();
    closed.set_bool("allow_self_registration", false);
    let shut = register("bob", "x@y.z", "", &closed, &None, &None);
    assert_eq!(shut.answer.error, "Registration is disabled");
}

#[test]
fn a_code_is_issued_with_an_end_and_lets_in_once() {
    let usr = Some(alice());
    let w = gen_otp(&usr, Some(alice()), "123456789", 10_000).expect("no code was issued");
    assert_eq!(w.safe_u64("otp_expires_at", 0), 10_000 + OTP_TTL_SECS);
    let with_code = Some(w);
    let r = login(&with_code, "123456789", false, 10_001);
    assert!(r.answer.succeeded);
    assert_eq!(r.session, Some(("alice@example.org".to_string(), 0)));
    let mut after = with_code.unwrap();
    after.merge(&r.write.expect("the code was not burned"));
    assert!(!otp_is_live(&after, 10_001));
    assert!(!login(&Some(after), "123456789", false, 10_002).answer.succeeded);
    assert!(gen_otp(&None, None, "1", 10_000).is_none());
}

#[test]
fn a_wrong_password_is_counted_against_a_live_code() {
    let mut usr = alice();
    issue_otp(&mut usr, "42", 100);
    let r = login(&Some(usr), "nope", false, 101);
    assert_eq!(r.answer.error, "Invalid login/password");
    assert!(r.session.is_none());
    assert_eq!(r.write.unwrap().safe_u64("otp_attempts", 0), 1);
    assert_eq!(bump_otp_attempts(3, u64::MAX).safe_u64("otp_attempts", 0), u64::MAX);

    let mut off = alice();
    off.set_bool("role_is_active", false);
    assert_eq!(login(&Some(off), "x", true, 1).answer.error, "User is inactive");
    assert_eq!(login(&None, "x", true, 1).answer.error, "Invalid login/password");
    assert!(login(&Some(alice()), "x", true, 1).answer.succeeded);
}

#[test]
fn signing_out_ends_the_sessions_on_every_device() {
    let mut usr = alice();
    let stamped = session_generation(&usr);
    assert!(!enforce_session_generation(
        Some(stamped),
        &UserLookup::Found(usr.clone())
    ));
    let update = logout(&Some(usr.clone())).expect("nothing was written");
    usr.merge(&update);
    assert_eq!(session_generation(&usr), 1);
    assert!(enforce_session_generation(
        Some(stamped),
        &UserLookup::Found(usr.clone())
    ));
    assert!(logout(&None).is_none());
    assert_eq!(bump_session_generation(&usr).safe_u64("session_gen", 0), 2);
}

#[test]
fn only_a_store_that_answers_revokes() {
    assert!(!enforce_session_generation(Some(3), &UserLookup::Unavailable));
    assert!(enforce_session_generation(Some(0), &UserLookup::Absent));
    assert!(!enforce_session_generation(None, &UserLookup::Found(alice())));
}

#[test]
fn one_framing_passes_and_two_do_not() {
    assert!(!reject_ambiguous_framing(true, false));
    assert!(!reject_ambiguous_framing(false, true));
    assert!(!reject_ambiguous_framing(false, false));
    assert!(reject_ambiguous_framing(true, true));
}

#[test]
fn an_account_is_found_by_login_or_address() {
    let mut store = StoreMemory::with_collections(&["user"]);
    store.seed("user", alice());
    assert_eq!(get_user(&store, "ALICE").map(|u| u.id), Some(1));
    assert_eq!(get_user(&store, "alice@Example.org").map(|u| u.id), Some(1));
    assert!(get_user(&store, "bob").is_none());
    let mut odd = alice();
    odd.id = 2;
    odd.set_str("login", "bob$");
    store.seed("user", odd);
    assert!(get_user(&store, "bob$").is_none());
    assert!(login_has_bad_symbols("bob$"));
}

#[test]
fn roles_go_by_the_prefix_of_the_deployment() {
    let mut internals = Item::new();
    assert!(check_role(&internals, &Some(admin(true)), "admin"));
    assert!(!check_role(&internals, &None, "admin"));
    internals.set_str("user_role_prefix", "perm_");
    assert!(!check_role(&internals, &Some(admin(true)), "admin"));
}

#[test]
fn the_login_screen_is_told_who_is_there() {
    let mut settings = Item::new();
    settings.set_str("site_name", "Mine");
    let nobody = is_logged_in(&settings, &Item::new(), None, true, &None);
    assert_eq!(nobody.site_name, "Mine");
    assert_eq!(nobody.username, "");
    let me = is_logged_in(
        &Item::new(),
        &Item::new(),
        Some("alice@example.org"),
        true,
        &Some(alice()),
    );
    assert_eq!(me.site_name, "Isabelle");
    assert_eq!(me.username, "alice@example.org");
    assert_eq!(me.id, 1);
}

#[test]
fn a_token_admits_what_its_scopes_name() {
    let mut record = Item::new();
    record.id = 5;
    record.set_str(FIELD_HASH, &hash("s"));
    record.set_id(FIELD_USER, 1);
    record.set_str(FIELD_SCOPES, "[\"runs\"]");
    let mut collections: StrMap<String> = StrMap::new();
    collections.insert("test:read".to_string(), "runs".to_string());
    let routes: StrMap<String> = StrMap::new();

    let presented = presented_token(Some("Bearer mid_5_s")).expect("no token was read");
    assert!(check_presented(&Some(record.clone()), &presented, 10).is_ok());
    assert!(check_presented(&None, &presented, 10).is_err());
    assert!(presented_token(None).is_none());

    let go = |path: &str, query: &str, owner: &Option<Item>| {
        accept_api_token(&record, owner, path, query, &routes, &collections, false, 10)
    };
    let a = go("/itm/list", "collection=test", &Some(alice()))
        .ok()
        .expect("the request was refused");
    assert_eq!(a.principal, "alice@example.org");
    assert!(a.drop_session);
    assert_eq!(
        go("/itm/edit", "collection=test", &Some(alice())).err().unwrap().status,
        403
    );
    assert_eq!(go("/itm/list", "collection=test", &None).err().unwrap().status, 401);
}

#[test]
fn the_clock_is_past_the_epoch() {
    assert!(now_ts() > 1_600_000_000);
}
