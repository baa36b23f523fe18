//! Accounts: which may be looked up, registered, given a one-time code, and
//! what roles they hold.
use crate::item::{Item, ItemView};
use crate::state::store_memory;
use crate::state::store_memory::StoreMemory;
use crate::text;
use crate::text::cat;
use vstd::prelude::*;

verus! {

/// The lifetime of a one-time code, in seconds.
pub const OTP_TTL_SECS: u64 = 600;

/// How many failed attempts burn a one-time code.
pub const OTP_MAX_ATTEMPTS: u64 = 5;

/// The least interval between two one-time codes for one account, in seconds.
pub const OTP_RESEND_INTERVAL_SECS: u64 = 60;

/// `chrono::Utc::now`, its `timestamp`: the whole seconds since the epoch. Nothing
/// is said of the time, and nothing of a clock that stands before the epoch, which
/// `chrono` does not take.
#[verifier::external_body]
fn utc_timestamp() -> i64 {
    chrono::Utc::now().timestamp()
}

/// A timestamp as a count of seconds, none before the epoch.
pub fn clamped_ts(ts: i64) -> (r: u64)
    ensures
        r == if ts < 0 {
            0
        } else {
            ts as int
        },
{
    if ts < 0 {
        0
    } else {
        ts as u64
    }
}

/// The current time as a count of seconds since the epoch.
pub fn now_ts() -> (r: u64)
    ensures
        r <= i64::MAX,
{
    clamped_ts(utc_timestamp())
}

// ---------------------------------------------------------------------------
// Logins
// ---------------------------------------------------------------------------

/// The characters that a lookup cannot handle.
pub open spec fn bad_symbol(c: char) -> bool {
    c == '"' || c == '\\' || c == '{' || c == '}' || c == '[' || c == ']' || c == '$'
}

/// Whether a login holds a character that a lookup cannot handle.
pub open spec fn has_bad_symbols(login: Seq<char>) -> bool {
    exists|i: int| 0 <= i < login.len() && bad_symbol(#[trigger] login[i])
}

/// Whether a login holds a character that a lookup cannot handle.
pub fn login_has_bad_symbols(login: &str) -> (r: bool)
    ensures
        r == has_bad_symbols(login@),
{
    let cs = text::chars_of(login);
    let mut i: usize = 0;
    while i < cs.len()
        invariant
            i <= cs.len(),
            cs@ == login@,
            forall|j: int| 0 <= j < i ==> !bad_symbol(#[trigger] login@[j]),
        decreases cs.len() - i,
    {
        let c = cs[i];
        if c == '"' || c == '\\' || c == '{' || c == '}' || c == '[' || c == ']' || c == '$' {
            proof {
                assert(bad_symbol(login@[i as int]));
            }
            return true;
        }
        i = i + 1;
    }
    false
}

/// Whether a login or an address is usable as a lookup key.
pub open spec fn acceptable(login: Seq<char>) -> bool {
    login.len() > 0 && vstd::utf8::encode_utf8(login).len() <= 254 && !has_bad_symbols(login)
}

/// Whether a login or an address is usable as a lookup key: not empty, at most
/// 254 bytes, and without the characters a lookup cannot handle.
pub fn login_is_acceptable(login: &str) -> (r: bool)
    ensures
        r == acceptable(login@),
{
    !login.is_empty() && login.as_bytes().len() <= 254 && !login_has_bad_symbols(login)
}

/// The account that goes by a login, or by an address, where there is one. A login
/// that holds a character that a lookup cannot handle is nobody's.
pub fn get_user(store: &StoreMemory, login: &str) -> (r: Option<Item>)
    ensures
        has_bad_symbols(login@) ==> r is None,
        match r {
            Some(u) => store_memory::goes_by(u@, login@) && exists|id: u64| #[trigger]
                store@.items("user"@).contains_key(id) && store@.items("user"@)[id] == u@,
            None => has_bad_symbols(login@) || forall|id: u64| #[trigger]
                store@.items("user"@).contains_key(id) ==> !store_memory::goes_by(
                    store@.items("user"@)[id],
                    login@,
                ),
        },
{
    if login_has_bad_symbols(login) {
        return None;
    }
    store.find_user(login)
}

// ---------------------------------------------------------------------------
// Registration
// ---------------------------------------------------------------------------

/// What a registration may do with the records it found.
#[derive(Clone, Copy, Debug, PartialEq, Eq, Structural)]
pub enum RegistrationTarget {
    /// No record has either key: create one.
    Create,
    /// Both keys lead to the same unfinished self-registration: the same
    /// request again, with nothing left to write.
    Resume(u64),
    /// Some record has one of the keys, and must not be touched.
    Taken,
}

/// A record that may be there, as its contract speaks of it.
pub open spec fn opt_item(o: Option<Item>) -> Option<ItemView> {
    match o {
        Some(i) => Some(i@),
        None => None,
    }
}

/// What a registration may do, given the lookups by login and by address.
pub open spec fn target(by_login: Option<ItemView>, by_email: Option<ItemView>) -> RegistrationTarget {
    match (by_login, by_email) {
        (None, None) => RegistrationTarget::Create,
        (Some(l), Some(e)) => if l.id == e.id && l.bool("self_registered"@, false) && !l.bool(
            "logged_once"@,
            false,
        ) {
            RegistrationTarget::Resume(l.id)
        } else {
            RegistrationTarget::Taken
        },
        _ => RegistrationTarget::Taken,
    }
}

/// What a registration may do, given the lookups by login and by address. A
/// record that registration did not make is never edited.
pub fn registration_target(
    usr_by_login: &Option<Item>,
    usr_by_email: &Option<Item>,
) -> (r: RegistrationTarget)
    ensures
        r == target(opt_item(*usr_by_login), opt_item(*usr_by_email)),
{
    match usr_by_login {
        None => match usr_by_email {
            None => RegistrationTarget::Create,
            Some(_) => RegistrationTarget::Taken,
        },
        Some(l) => match usr_by_email {
            None => RegistrationTarget::Taken,
            Some(e) => {
                if l.id == e.id && l.safe_bool("self_registered", false) && !l.safe_bool(
                    "logged_once",
                    false,
                ) {
                    RegistrationTarget::Resume(l.id)
                } else {
                    RegistrationTarget::Taken
                }
            },
        },
    }
}

/// An account that an operator set up is never taken by a registration, by
/// either of its keys.
pub proof fn provisioned_is_never_taken(
    record: ItemView,
    other: Option<ItemView>,
)
    requires
        !record.bool("self_registered"@, false),
    ensures
        target(Some(record), other) == RegistrationTarget::Taken,
        target(None, Some(record)) == RegistrationTarget::Taken,
{
}

/// A registration that was finished by signing in is not resumed.
pub proof fn finished_is_taken(record: ItemView, other: Option<ItemView>)
    requires
        record.bool("logged_once"@, false),
    ensures
        target(Some(record), other) == RegistrationTarget::Taken,
{
}

// ---------------------------------------------------------------------------
// One-time codes
// ---------------------------------------------------------------------------

/// Whether the code stored on a record is a credential at a time.
pub open spec fn otp_live(v: ItemView, now: u64) -> bool {
    &&& v.str("otp"@, Seq::empty()).len() > 0
    &&& v.u64("otp_expires_at"@, 0) > now
    &&& v.u64("otp_attempts"@, 0) < OTP_MAX_ATTEMPTS
}

/// Whether the code stored on a record is still usable as a credential.
pub fn otp_is_live(itm: &Item, now: u64) -> (r: bool)
    ensures
        r == otp_live(itm@, now),
{
    proof {
        reveal_strlit("");
        assert(""@ =~= Seq::<char>::empty());
    }
    !itm.safe_str("otp", "").as_str().is_empty() && itm.safe_u64("otp_expires_at", 0) > now
        && itm.safe_u64("otp_attempts", 0) < OTP_MAX_ATTEMPTS
}

/// Whether a new code may be issued for a record at a time.
pub open spec fn otp_issuable(v: ItemView, now: u64) -> bool {
    v.bool("role_is_active"@, false) && now >= v.u64("otp_issued_at"@, 0)
        + OTP_RESEND_INTERVAL_SECS
}

/// Whether a new code may be issued for a record right now.
pub fn otp_may_be_issued(itm: &Item, now: u64) -> (r: bool)
    ensures
        r == otp_issuable(itm@, now),
{
    let issued: u64 = itm.safe_u64("otp_issued_at", 0);
    itm.safe_bool("role_is_active", false) && now >= issued && now - issued
        >= OTP_RESEND_INTERVAL_SECS
}

/// The record after a code was issued to it.
pub open spec fn with_otp(v: ItemView, code: Seq<char>, now: u64) -> ItemView {
    v.with_str("otp"@, code).with_u64("otp_issued_at"@, now).with_u64(
        "otp_expires_at"@,
        otp_end(now),
    ).with_u64("otp_attempts"@, 0)
}

/// When a code issued at a time ends.
pub open spec fn otp_end(now: u64) -> u64 {
    if now + OTP_TTL_SECS > u64::MAX {
        u64::MAX
    } else {
        (now + OTP_TTL_SECS) as u64
    }
}

/// Puts a new code on a record.
pub fn issue_otp(itm: &mut Item, code: &str, now: u64)
    ensures
        final(itm)@ == with_otp(old(itm)@, code@, now),
{
    itm.set_str("otp", code);
    itm.set_u64("otp_issued_at", now);
    itm.set_u64("otp_expires_at", now.saturating_add(OTP_TTL_SECS));
    itm.set_u64("otp_attempts", 0);
}

/// The update that counts a failed attempt.
pub open spec fn failed_attempt(id: u64, attempts: u64) -> ItemView {
    ItemView::empty().numbered(id).with_u64(
        "otp_attempts"@,
        if attempts == u64::MAX {
            attempts
        } else {
            (attempts + 1) as u64
        },
    )
}

/// The update that counts a failed attempt, so that a code can be guessed at
/// only a bounded number of times. It is to be merged into the record.
pub fn bump_otp_attempts(id: u64, attempts: u64) -> (r: Item)
    ensures
        r@ == failed_attempt(id, attempts),
{
    let mut itm = Item::new();
    itm.id = id;
    itm.set_u64("otp_attempts", attempts.saturating_add(1));
    itm
}

/// The keys of the code's bookkeeping differ.
pub proof fn otp_keys()
    ensures
        "otp_issued_at"@ != "otp_expires_at"@,
        "otp_issued_at"@ != "otp_attempts"@,
        "otp_expires_at"@ != "otp_attempts"@,
{
    reveal_strlit("otp_issued_at");
    reveal_strlit("otp_expires_at");
    reveal_strlit("otp_attempts");
    assert("otp_issued_at"@[4] != "otp_expires_at"@[4]);
    assert("otp_issued_at"@[4] != "otp_attempts"@[4]);
    assert("otp_expires_at"@[4] != "otp_attempts"@[4]);
}

/// A code that was just issued is a credential until its time is up, and from
/// then on it is none.
pub proof fn issued_otp_lives_its_time(v: ItemView, code: Seq<char>, made: u64, now: u64)
    requires
        code.len() > 0,
        made + OTP_TTL_SECS <= u64::MAX,
    ensures
        otp_live(with_otp(v, code, made), now) <==> now < made + OTP_TTL_SECS,
{
    otp_keys();
}

/// After a code was issued, none is issued again until the interval is over.
pub proof fn issuing_is_throttled(v: ItemView, code: Seq<char>, made: u64, now: u64)
    requires
        v.bool("role_is_active"@, false),
    ensures
        otp_issuable(with_otp(v, code, made), now) <==> now >= made + OTP_RESEND_INTERVAL_SECS,
{
    otp_keys();
}

/// The record after `n` failed attempts, each counted by its update.
pub open spec fn after_failures(v: ItemView, n: nat) -> ItemView
    decreases n,
{
    if n == 0 {
        v
    } else {
        let w = after_failures(v, (n - 1) as nat);
        w.overlaid(failed_attempt(w.id, w.u64("otp_attempts"@, 0)))
    }
}

/// A code survives fewer failed attempts than the limit and is dead from the
/// limit on, whatever else the record says.
pub proof fn guesses_are_bounded(v: ItemView, n: nat, now: u64)
    requires
        n >= OTP_MAX_ATTEMPTS,
    ensures
        !otp_live(after_failures(v, n), now),
{
    failures_add_up(v, n);
}

proof fn failures_add_up(v: ItemView, n: nat)
    ensures
        after_failures(v, n).u64("otp_attempts"@, 0) >= n || after_failures(v, n).u64(
            "otp_attempts"@,
            0,
        ) == u64::MAX,
        after_failures(v, n).strs == v.strs,
    decreases n,
{
    if n > 0 {
        failures_add_up(v, (n - 1) as nat);
        let w = after_failures(v, (n - 1) as nat);
        assert(w.overlaid(failed_attempt(w.id, w.u64("otp_attempts"@, 0))).strs =~= w.strs);
    }
}

// ---------------------------------------------------------------------------
// Roles
// ---------------------------------------------------------------------------

/// Whether an account holds a role.
pub open spec fn granted(user: ItemView, prefix: Seq<char>, role: Seq<char>) -> bool {
    user.bool("role_is_active"@, false) && user.bool(prefix + role, false)
}

/// Whether an account holds a role. An inactive account holds none.
pub fn role_is_granted(user: &Item, role_prefix: &str, role: &str) -> (r: bool)
    ensures
        r == granted(user@, role_prefix@, role@),
{
    if !user.safe_bool("role_is_active", false) {
        return false;
    }
    user.safe_bool(cat(role_prefix, role).as_str(), false)
}

/// The prefix that this deployment's role flags have.
pub open spec fn role_prefix(internals: ItemView) -> Seq<char> {
    internals.str("user_role_prefix"@, "role_is_"@)
}

/// Whether a caller holds a role, by the role flags that this deployment uses.
/// Nobody holds none.
pub fn check_role(internals: &Item, user: &Option<Item>, role: &str) -> (r: bool)
    ensures
        r == (user is Some && granted(user->Some_0@, role_prefix(internals@), role@)),
{
    match user {
        Some(u) => role_is_granted(
            u,
            internals.safe_str("user_role_prefix", "role_is_").as_str(),
            role,
        ),
        None => false,
    }
}

/// Switching an account off takes every role away at once.
pub proof fn deactivation_revokes(user: ItemView, prefix: Seq<char>, role: Seq<char>)
    ensures
        !granted(user.with_bool("role_is_active"@, false), prefix, role),
{
}

// ---------------------------------------------------------------------------
// Session generations
// ---------------------------------------------------------------------------

/// The generation that an account's sessions must carry.
pub open spec fn generation(user: ItemView) -> u64 {
    user.u64("session_gen"@, 0)
}

/// The generation that an account's sessions must carry.
pub fn session_generation(user: &Item) -> (r: u64)
    ensures
        r == generation(user@),
{
    user.safe_u64("session_gen", 0)
}

/// The update that moves an account to its next generation, ending every
/// session it has. It is to be merged into the record.
pub fn bump_session_generation(user: &Item) -> (r: Item)
    ensures
        r@ == ItemView::empty().numbered(user@.id).with_u64(
            "session_gen"@,
            if generation(user@) == u64::MAX {
                u64::MAX
            } else {
                (generation(user@) + 1) as u64
            },
        ),
{
    let mut itm = Item::new();
    itm.id = user.id;
    itm.set_u64("session_gen", session_generation(user).saturating_add(1));
    itm
}

/// A login is refused for what a lookup cannot handle, for nothing, and for more
/// than 254 bytes.
pub proof fn what_a_login_may_be(login: Seq<char>)
    ensures
        has_bad_symbols(login) <==> login.contains('"') || login.contains('\\') || login.contains(
            '{',
        ) || login.contains('}') || login.contains('[') || login.contains(']') || login.contains(
            '$',
        ),
        acceptable(login) <==> login.len() > 0 && vstd::utf8::encode_utf8(login).len() <= 254
            && !has_bad_symbols(login),
{
    if has_bad_symbols(login) {
        let i = choose|i: int| 0 <= i < login.len() && bad_symbol(#[trigger] login[i]);
        assert(login.contains(login[i]));
    }
    assert forall|c: char| #[trigger] login.contains(c) && bad_symbol(c) implies has_bad_symbols(
        login,
    ) by {
        let i = choose|i: int| 0 <= i < login.len() && login[i] == c;
        assert(bad_symbol(login[i]));
    }
    assert(login.contains('"') ==> bad_symbol('"'));
}

/// The same request again is told from somebody else's account: it finds one
/// record by both keys, which registration made and nobody has signed into yet.
/// Whatever else is found is taken, and nothing found means that one is made.
pub proof fn what_a_registration_finds(
    by_login: Option<ItemView>,
    by_email: Option<ItemView>,
    id: u64,
)
    ensures
        target(by_login, by_email) == RegistrationTarget::Create <==> by_login is None && by_email
            is None,
        target(by_login, by_email) == RegistrationTarget::Resume(id) <==> by_login is Some
            && by_email is Some && by_login->Some_0.id == id && by_email->Some_0.id == id
            && by_login->Some_0.bools.contains_key("self_registered"@)
            && by_login->Some_0.bools["self_registered"@] && !(
        by_login->Some_0.bools.contains_key("logged_once"@)
            && by_login->Some_0.bools["logged_once"@]),
{
}

/// A code is a credential while it is there, in time, and tried fewer than five
/// times.
pub proof fn what_keeps_a_code_alive(v: ItemView, now: u64)
    ensures
        otp_live(v, now) <==> v.strs.contains_key("otp"@) && v.strs["otp"@].len() > 0
            && v.u64s.contains_key("otp_expires_at"@) && now < v.u64s["otp_expires_at"@]
            && v.u64("otp_attempts"@, 0) < 5,
        otp_live(v, now) ==> (forall|earlier: u64| earlier <= now ==> #[trigger] otp_live(
            v,
            earlier,
        )),
{
}

/// A code that was just issued lives for ten minutes, and another may be asked for
/// after one, by an account that is on and by no other. Nothing else of the record
/// is touched.
pub proof fn how_codes_are_issued(v: ItemView, code: Seq<char>, made: u64, now: u64, k: Seq<char>)
    requires
        code.len() > 0,
        made + 600 <= u64::MAX,
    ensures
        ({
            let after = with_otp(v, code, made);
            &&& after.strs.contains_key("otp"@) && after.strs["otp"@] == code
            &&& otp_live(after, now) <==> now < made + 600
            &&& after.u64("otp_attempts"@, 9) == 0
            &&& otp_issuable(after, now) <==> v.bools.contains_key("role_is_active"@)
                && v.bools["role_is_active"@] && now >= made + 60
            &&& k != "otp"@ ==> after.strs.get(k) == v.strs.get(k)
            &&& after.bools == v.bools
            &&& after.ids == v.ids
            &&& after.id == v.id
        }),
        !(v.bools.contains_key("role_is_active"@) && v.bools["role_is_active"@]) ==> !otp_issuable(
            v,
            now,
        ),
{
    otp_keys();
}

/// A failed attempt counts for one, and touches nothing else.
pub proof fn a_failure_counts_for_one(v: ItemView, k: Seq<char>)
    requires
        v.u64("otp_attempts"@, 0) < u64::MAX,
    ensures
        ({
            let after = v.overlaid(failed_attempt(v.id, v.u64("otp_attempts"@, 0)));
            &&& failed_attempt(v.id, v.u64("otp_attempts"@, 0)).id == v.id
            &&& after.u64("otp_attempts"@, 0) == v.u64("otp_attempts"@, 0) + 1
            &&& k != "otp_attempts"@ ==> after.u64s.get(k) == v.u64s.get(k)
            &&& after.strs == v.strs
            &&& after.bools == v.bools
            &&& after.ids == v.ids
        }),
{
    let after = v.overlaid(failed_attempt(v.id, v.u64("otp_attempts"@, 0)));
    assert(after.strs =~= v.strs);
    assert(after.bools =~= v.bools);
    assert(after.ids =~= v.ids);
}

/// A role is held by an account that is on and whose flag for it is set; a flag
/// that is off counts like none.
pub proof fn a_role_needs_its_flag(user: ItemView, prefix: Seq<char>, role: Seq<char>)
    ensures
        granted(user, prefix, role) <==> user.bools.get("role_is_active"@) == Some(true)
            && user.bools.get(prefix + role) == Some(true),
{
}

/// Role flags begin with `role_is_` unless the deployment says otherwise.
pub proof fn the_usual_role_prefix(internals: ItemView)
    ensures
        !internals.strs.contains_key("user_role_prefix"@) ==> role_prefix(internals) == "role_is_"@,
        internals.strs.contains_key("user_role_prefix"@) ==> role_prefix(internals)
            == internals.strs["user_role_prefix"@],
{
}

/// An account is in the generation that its record says, and in the first where it
/// says none.
pub proof fn where_generations_start(user: ItemView)
    ensures
        !user.u64s.contains_key("session_gen"@) ==> generation(user) == 0,
        user.u64s.contains_key("session_gen"@) ==> generation(user) == user.u64s["session_gen"@],
{
}

/// A record that may be there is one exactly where it is.
pub proof fn a_record_is_itself(o: Option<Item>)
    ensures
        opt_item(o) is Some <==> o is Some,
        o is Some ==> opt_item(o) == Some(o->Some_0@),
{
}

/// Codes are issued no more often than once in a minute; where none was ever issued, the
/// minute counts from nothing.
pub proof fn how_often_codes_are_issued(v: ItemView, now: u64)
    ensures
        v.bools.get("role_is_active"@) == Some(true) && v.u64s.contains_key("otp_issued_at"@) ==> (
        otp_issuable(v, now) <==> now >= v.u64s["otp_issued_at"@] + 60),
        v.bools.get("role_is_active"@) == Some(true) && !v.u64s.contains_key("otp_issued_at"@) ==> (
        otp_issuable(v, now) <==> now >= 60),
{
}

} // verus!
