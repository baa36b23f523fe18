//! The authentication endpoints: what each decides, and what it writes.
use crate::collections;
use crate::collections::StrMap;
use crate::item::{Item, ItemView, ProcessResult};
use crate::server::user_control;
use crate::server::user_control::{
    bump_otp_attempts, bump_session_generation, issue_otp, login_is_acceptable, otp_is_live,
    otp_may_be_issued,
    registration_target, session_generation, RegistrationTarget,
};
use crate::text;
use crate::text::{owned, same, strip_prefix};
use crate::util::crypto::constant_time_same;
use vstd::prelude::*;

verus! {

// ---------------------------------------------------------------------------
// Registration
// ---------------------------------------------------------------------------

/// Why a registration is refused, before any record is looked up.
pub open spec fn register_refusal(
    login: Seq<char>,
    email: Seq<char>,
    internals: ItemView,
) -> Option<Seq<char>> {
    if !user_control::acceptable(login) || !user_control::acceptable(email) {
        Some("Invalid login or email"@)
    } else if !internals.bool("allow_self_registration"@, true) {
        Some("Registration is disabled"@)
    } else {
        None
    }
}

/// Why a registration is refused, before any record is looked up.
pub fn register_check(login: &str, email: &str, internals: &Item) -> (r: Option<&'static str>)
    ensures
        match r {
            Some(e) => register_refusal(login@, email@, internals@) == Some(e@),
            None => register_refusal(login@, email@, internals@) is None,
        },
{
    if !login_is_acceptable(login) || !login_is_acceptable(email) {
        return Some("Invalid login or email");
    }
    if !internals.safe_bool("allow_self_registration", true) {
        return Some("Registration is disabled");
    }
    None
}

/// The account that a registration makes.
pub open spec fn registered(login: Seq<char>, email: Seq<char>) -> ItemView {
    ItemView::empty().with_str("name"@, login).with_str("login"@, login).with_str(
        "email"@,
        email,
    ).with_bool("self_registered"@, true).with_bool("role_is_active"@, true)
}

/// What is answered, and what is written.
pub struct Outcome {
    pub answer: ProcessResult,
    pub write: Option<Item>,
}

/// Whether an answer is a plain one.
pub open spec fn plain_answer(a: ProcessResult, succeeded: bool, error: Seq<char>) -> bool {
    a.succeeded == succeeded && a.error@ == error && a.data@ == Map::<Seq<char>, Seq<char>>::empty()
}

/// Decides a registration, given the lookups by login and by address. Only ever
/// creates: the same request again finds its record and writes nothing.
pub fn register(
    login: &str,
    email: &str,
    dry: &str,
    internals: &Item,
    usr_by_login: &Option<Item>,
    usr_by_email: &Option<Item>,
) -> (r: Outcome)
    ensures
        match register_refusal(login@, email@, internals@) {
            Some(e) => plain_answer(r.answer, false, e) && r.write is None,
            None => match user_control::target(
                user_control::opt_item(*usr_by_login),
                user_control::opt_item(*usr_by_email),
            ) {
                RegistrationTarget::Taken => plain_answer(
                    r.answer,
                    false,
                    "Login is already used"@,
                ) && r.write is None,
                RegistrationTarget::Resume(_) => plain_answer(r.answer, true, ""@)
                    && r.write is None,
                RegistrationTarget::Create => plain_answer(r.answer, true, ""@) && (if dry@
                    == "true"@ {
                    r.write is None
                } else {
                    r.write is Some && r.write->Some_0@ == registered(login@, email@)
                }),
            },
        },
{
    match register_check(login, email, internals) {
        Some(e) => {
            return Outcome { answer: ProcessResult::plain(false, e), write: None };
        },
        None => {},
    }
    let target = registration_target(usr_by_login, usr_by_email);
    if target == RegistrationTarget::Taken {
        return Outcome {
            answer: ProcessResult::plain(false, "Login is already used"),
            write: None,
        };
    }
    if !same(dry, "true") && target == RegistrationTarget::Create {
        let mut itm = Item::new();
        itm.set_str("name", login);
        itm.set_str("login", login);
        itm.set_str("email", email);
        itm.set_bool("self_registered", true);
        itm.set_bool("role_is_active", true);
        return Outcome { answer: ProcessResult::plain(true, ""), write: Some(itm) };
    }
    Outcome { answer: ProcessResult::plain(true, ""), write: None }
}

/// A registration writes a record only where neither key has one, and the
/// record it writes is a new one.
pub proof fn registration_only_creates(
    by_login: Option<ItemView>,
    by_email: Option<ItemView>,
    login: Seq<char>,
    email: Seq<char>,
)
    ensures
        user_control::target(by_login, by_email) == RegistrationTarget::Create <==> by_login is None
            && by_email is None,
        registered(login, email).id == u64::MAX,
{
}

/// An account that was registered can be looked up again by both its keys, and
/// a second registration of them finds it.
pub proof fn registered_is_resumed(id: u64, login: Seq<char>, email: Seq<char>)
    ensures
        ({
            let record = registered(login, email).numbered(id);
            &&& record.str("login"@, Seq::empty()) == login
            &&& record.str("email"@, Seq::empty()) == email
            &&& user_control::target(Some(record), Some(record)) == RegistrationTarget::Resume(id)
        }),
{
    reveal_strlit("email");
    reveal_strlit("login");
    reveal_strlit("name");
    reveal_strlit("self_registered");
    reveal_strlit("role_is_active");
    reveal_strlit("logged_once");
    assert("email"@[0] != "login"@[0]);
    assert("name"@[0] != "login"@[0]);
    assert("self_registered"@[0] != "role_is_active"@[0]);
    assert("logged_once"@[0] != "role_is_active"@[0]);
    assert("logged_once"@[0] != "self_registered"@[0]);
}

// ---------------------------------------------------------------------------
// One-time codes
// ---------------------------------------------------------------------------

/// The record to write when a code is asked for, if one is issued: `usr` is the
/// account found by name, `stored` its record, `code` the new code. What is
/// answered is the same in every case.
pub fn gen_otp(usr: &Option<Item>, stored: Option<Item>, code: &str, now: u64) -> (r: Option<Item>)
    ensures
        match r {
            Some(w) => usr is Some && user_control::otp_issuable(usr->Some_0@, now) && stored is Some
                && w@ == user_control::with_otp(stored->Some_0@, code@, now),
            None => usr is None || !user_control::otp_issuable(usr->Some_0@, now)
                || stored is None,
        },
{
    match usr {
        Some(u) => {
            if !otp_may_be_issued(u, now) {
                return None;
            }
            match stored {
                Some(s) => {
                    let mut w = s;
                    issue_otp(&mut w, code, now);
                    Some(w)
                },
                None => None,
            }
        },
        None => None,
    }
}

// ---------------------------------------------------------------------------
// Logging in and out
// ---------------------------------------------------------------------------

/// What a login does.
pub struct Login {
    pub answer: ProcessResult,
    /// Whom the session names and the generation it is stamped with, where one
    /// is opened.
    pub session: Option<(String, u64)>,
    /// The update to merge into the account's record.
    pub write: Option<Item>,
}

/// Whether a presented password is the account's live one-time code.
pub open spec fn otp_matches(usr: ItemView, password: Seq<char>, now: u64) -> bool {
    user_control::otp_live(usr, now) && usr.str("otp"@, Seq::empty()) == password
}

/// Whether a presented password lets the account in. `verified` says whether it
/// matches the stored hash.
pub open spec fn credential_ok(usr: ItemView, password: Seq<char>, verified: bool, now: u64) -> bool {
    (usr.str("password"@, Seq::empty()).len() > 0 && verified) || otp_matches(usr, password, now)
}

/// The update that a successful login leaves: the code is burned.
pub open spec fn logged_in_update(id: u64) -> ItemView {
    ItemView::empty().numbered(id).with_bool("logged_once"@, true).with_str(
        "otp"@,
        ""@,
    ).with_u64("otp_expires_at"@, 0).with_u64("otp_attempts"@, 0)
}

/// Decides a login for the account found by name. `verified` says whether the
/// presented password matches the stored hash.
pub fn login(usr: &Option<Item>, password: &str, verified: bool, now: u64) -> (r: Login)
    ensures
        match usr {
            None => plain_answer(r.answer, false, "Invalid login/password"@) && r.session is None
                && r.write is None,
            Some(u) => if !u@.bool("role_is_active"@, false) {
                plain_answer(r.answer, false, "User is inactive"@) && r.session is None
                    && r.write is None
            } else if credential_ok(u@, password@, verified, now) {
                &&& plain_answer(r.answer, true, ""@)
                &&& r.session is Some
                &&& r.session->Some_0.0@ == u@.str("email"@, Seq::empty())
                &&& r.session->Some_0.1 == user_control::generation(u@)
                &&& r.write is Some
                &&& r.write->Some_0@ == logged_in_update(u@.id)
            } else {
                &&& plain_answer(r.answer, false, "Invalid login/password"@)
                &&& r.session is None
                &&& user_control::opt_item(r.write) == if user_control::otp_live(u@, now) {
                    Some(user_control::failed_attempt(u@.id, u@.u64("otp_attempts"@, 0)))
                } else {
                    None
                }
            },
        },
{
    proof {
        reveal_strlit("");
        assert(""@ =~= Seq::<char>::empty());
    }
    let u = match usr {
        None => {
            return Login {
                answer: ProcessResult::plain(false, "Invalid login/password"),
                session: None,
                write: None,
            };
        },
        Some(u) => u,
    };
    if !u.safe_bool("role_is_active", false) {
        return Login {
            answer: ProcessResult::plain(false, "User is inactive"),
            session: None,
            write: None,
        };
    }
    let live = otp_is_live(u, now);
    let otp_ok = live && constant_time_same(u.safe_str("otp", "").as_str(), password);
    let pw_ok = !u.safe_str("password", "").as_str().is_empty() && verified;
    if pw_ok || otp_ok {
        let mut logged = Item::new();
        logged.id = u.id;
        logged.set_bool("logged_once", true);
        logged.set_str("otp", "");
        logged.set_u64("otp_expires_at", 0);
        logged.set_u64("otp_attempts", 0);
        Login {
            answer: ProcessResult::plain(true, ""),
            session: Some((u.safe_str("email", ""), session_generation(u))),
            write: Some(logged),
        }
    } else {
        let counted = if live {
            Some(bump_otp_attempts(u.id, u.safe_u64("otp_attempts", 0)))
        } else {
            None
        };
        Login {
            answer: ProcessResult::plain(false, "Invalid login/password"),
            session: None,
            write: counted,
        }
    }
}

/// A successful login burns the code: it is no credential afterwards.
pub proof fn login_burns_the_code(usr: ItemView, password: Seq<char>, now: u64)
    ensures
        !otp_matches(usr.overlaid(logged_in_update(usr.id)), password, now),
{
    reveal_strlit("");
}

/// An account that has been logged into is not open to a registration.
pub proof fn logged_in_is_not_resumed(usr: ItemView, other: Option<ItemView>)
    ensures
        user_control::target(Some(usr.overlaid(logged_in_update(usr.id))), other)
            == RegistrationTarget::Taken,
{
    assert(usr.overlaid(logged_in_update(usr.id)).bool("logged_once"@, false));
}

// ---------------------------------------------------------------------------
// Who is logged in
// ---------------------------------------------------------------------------

/// The caller, as far as the server knows it, and the branding that a login
/// screen needs.
pub struct DetailedLoginUser {
    pub username: String,
    pub id: u64,
    pub role: Vec<String>,
    pub site_name: String,
    pub site_logo: String,
    pub licensed_to: String,
    pub params: StrMap<String>,
}

/// A setting, or the deployment's default, or the built-in one.
pub open spec fn picked(
    settings: ItemView,
    internals: ItemView,
    key: Seq<char>,
    default_key: Seq<char>,
    default_value: Seq<char>,
) -> Seq<char> {
    let s = settings.str(key, Seq::empty());
    if s.len() == 0 {
        internals.str(default_key, default_value)
    } else {
        s
    }
}

fn pick(
    settings: &Item,
    internals: &Item,
    key: &str,
    default_key: &str,
    default_value: &str,
) -> (r: String)
    ensures
        r@ == picked(settings@, internals@, key@, default_key@, default_value@),
{
    proof {
        reveal_strlit("");
        assert(""@ =~= Seq::<char>::empty());
    }
    let s = settings.safe_str(key, "");
    if s.as_str().is_empty() {
        internals.safe_str(default_key, default_value)
    } else {
        s
    }
}

/// Whether a record grants a role by a flag that is set.
pub open spec fn role_flag(bools: Map<Seq<char>, bool>, prefix: Seq<char>, role: Seq<char>) -> bool {
    role.len() > 0 && bools.contains_key(prefix + role) && bools[prefix + role]
}

/// The roles that a record's flags grant, each once.
pub fn roles_of(bools: &StrMap<bool>, prefix: &str) -> (r: Vec<String>)
    ensures
        text::views(r@).no_duplicates(),
        forall|role: Seq<char>| #[trigger]
            text::views(r@).contains(role) <==> role_flag(bools@, prefix@, role),
{
    let n: usize = bools.len();
    let ghost all = bools.pairs();
    let mut r: Vec<String> = Vec::new();
    let mut i: usize = 0;
    while i < n
        invariant
            i <= n,
            n == all.len(),
            all == bools.pairs(),
            collections::distinct_keys(all),
            text::views(r@).no_duplicates(),
            forall|x: int|
                0 <= x < r@.len() ==> (#[trigger] r@[x])@.len() > 0 && exists|j: int|
                    0 <= j < i && (#[trigger] all[j]).0 == prefix@ + r@[x]@ && all[j].1,
            forall|j: int, role: Seq<char>|
                0 <= j < i && (#[trigger] all[j]).0 == #[trigger] (prefix@ + role) && all[j].1
                    && role.len() > 0 ==> text::views(r@).contains(role),
        decreases n - i,
    {
        let ghost had = text::views(r@);
        let ghost held = r@;
        if *bools.value(i) {
            match strip_prefix(bools.key(i).as_str(), prefix) {
                Some(role) => {
                    if !role.as_str().is_empty() {
                        let ghost k = all[i as int].0;
                        proof {
                            assert(k =~= prefix@ + role@);
                            assert(!had.contains(role@)) by {
                                if had.contains(role@) {
                                    let x = choose|x: int| 0 <= x < had.len() && had[x] == role@;
                                    assert(held[x]@ == role@);
                                    let j = choose|j: int|
                                        0 <= j < i && (#[trigger] all[j]).0 == prefix@ + held[x]@
                                            && all[j].1;
                                    assert(all[j].0 != all[i as int].0);
                                }
                            }
                        }
                        r.push(role);
                        proof {
                            assert(text::views(r@) =~= had.push(role@));
                            assert forall|x: int| 0 <= x < r@.len() implies (
                            #[trigger] r@[x])@.len() > 0 && exists|j: int|
                                0 <= j < i + 1 && (#[trigger] all[j]).0 == prefix@ + r@[x]@
                                    && all[j].1 by {
                                if x == r@.len() - 1 {
                                    assert(all[i as int].0 == prefix@ + r@[x]@);
                                } else {
                                    assert(r@[x] == held[x]);
                                }
                            }
                            assert forall|j: int, other: Seq<char>|
                                0 <= j < i + 1 && (#[trigger] all[j]).0 == #[trigger] (prefix@
                                    + other) && all[j].1 && other.len() > 0 implies text::views(
                                r@,
                            ).contains(other) by {
                                if j == i {
                                    assert(other =~= k.skip(prefix@.len() as int));
                                    assert(role@ =~= k.skip(prefix@.len() as int));
                                    assert(text::views(r@)[had.len() as int] == role@);
                                } else {
                                    assert(had.contains(other));
                                    let x = choose|x: int| 0 <= x < had.len() && had[x] == other;
                                    assert(text::views(r@)[x] == other);
                                }
                            }
                        }
                    } else {
                        proof {
                            assert forall|other: Seq<char>|
                                all[i as int].0 == #[trigger] (prefix@ + other) implies other.len()
                                == 0 by {
                                assert(other =~= all[i as int].0.skip(prefix@.len() as int));
                            }
                        }
                    }
                },
                None => {
                    proof {
                        assert forall|other: Seq<char>| all[i as int].0 != #[trigger] (prefix@
                            + other) by {
                            if all[i as int].0 == prefix@ + other {
                                assert(all[i as int].0.subrange(0, prefix@.len() as int)
                                    =~= prefix@);
                            }
                        }
                    }
                },
            }
        }
        i = i + 1;
    }
    proof {
        assert forall|role: Seq<char>| #[trigger]
            text::views(r@).contains(role) <==> role_flag(bools@, prefix@, role) by {
            if text::views(r@).contains(role) {
                let x = choose|x: int| 0 <= x < r@.len() && text::views(r@)[x] == role;
                assert(r@[x]@ == role);
                let j = choose|j: int|
                    0 <= j < n && (#[trigger] all[j]).0 == prefix@ + r@[x]@ && all[j].1;
                collections::map_of_has(all, j);
            }
            if role_flag(bools@, prefix@, role) {
                let j = collections::map_of_from(all, prefix@ + role);
                assert(all[j].0 == prefix@ + role);
            }
        }
    }
    r
}

/// Whether an account is the one that a session names: the record's address is
/// exactly the session's.
pub open spec fn names(found: ItemView, identity: Seq<char>) -> bool {
    found.strs.contains_key("email"@) && found.strs["email"@] == identity
}

/// Tells who is logged in. `identity` is the address the session names, where
/// there is one; `found` the account looked up by it.
pub fn is_logged_in(
    settings: &Item,
    internals: &Item,
    identity: Option<&str>,
    has_users: bool,
    found: &Option<Item>,
) -> (r: DetailedLoginUser)
    ensures
        r.site_name@ == picked(
            settings@,
            internals@,
            "site_name"@,
            "default_site_name"@,
            "Isabelle"@,
        ),
        r.site_logo@ == picked(
            settings@,
            internals@,
            "site_logo"@,
            "default_site_logo"@,
            "/logo.png"@,
        ),
        r.licensed_to@ == picked(
            settings@,
            internals@,
            "licensed_to"@,
            "default_licensed_to"@,
            "end user"@,
        ),
        r.params@ == Map::<Seq<char>, Seq<char>>::empty().insert(
            "language"@,
            picked(settings@, internals@, "language"@, "default_language"@, "en"@),
        ),
        if has_users && identity is Some && found is Some && names(
            found->Some_0@,
            identity->Some_0@,
        ) {
            &&& r.username@ == identity->Some_0@
            &&& r.id == found->Some_0@.id
            &&& text::views(r.role@).no_duplicates()
            &&& forall|role: Seq<char>| #[trigger]
                text::views(r.role@).contains(role) <==> role_flag(
                    found->Some_0@.bools,
                    user_control::role_prefix(internals@),
                    role,
                )
        } else {
            r.username@ == ""@ && r.id == 0 && r.role@.len() == 0
        },
{
    let mut params: StrMap<String> = StrMap::new();
    params.insert(
        owned("language"),
        pick(settings, internals, "language", "default_language", "en"),
    );
    let mut user = DetailedLoginUser {
        username: owned(""),
        id: 0,
        role: Vec::new(),
        site_name: pick(settings, internals, "site_name", "default_site_name", "Isabelle"),
        site_logo: pick(settings, internals, "site_logo", "default_site_logo", "/logo.png"),
        licensed_to: pick(settings, internals, "licensed_to", "default_licensed_to", "end user"),
        params,
    };
    if !has_users {
        return user;
    }
    match identity {
        Some(named) => match found {
            Some(record) => {
                let same_address = match record.strs.get("email") {
                    Some(e) => same(e.as_str(), named),
                    None => false,
                };
                if same_address {
                    user.username = owned(named);
                    user.id = record.id;
                    let prefix = internals.safe_str("user_role_prefix", "role_is_");
                    user.role = roles_of(&record.bools, prefix.as_str());
                }
                user
            },
            None => user,
        },
        None => user,
    }
}

/// The update that signing out asks for: the account moves to its next generation,
/// which ends every session it has, not only the one that signs out.
pub fn logout(usr: &Option<Item>) -> (r: Option<Item>)
    ensures
        match usr {
            Some(u) => r matches Some(update) && update@ == ItemView::empty().numbered(
                u@.id,
            ).with_u64(
                "session_gen"@,
                if user_control::generation(u@) == u64::MAX {
                    u64::MAX
                } else {
                    (user_control::generation(u@) + 1) as u64
                },
            ),
            None => r is None,
        },
{
    match usr {
        Some(u) => Some(bump_session_generation(u)),
        None => None,
    }
}

/// A role is reported just where the flag of that name behind the prefix is there
/// and set: a flag that is off counts like none, setting it gives the role, and no
/// other role is touched by it.
pub proof fn only_set_flags_give_roles(
    bools: Map<Seq<char>, bool>,
    prefix: Seq<char>,
    role: Seq<char>,
    other: Seq<char>,
)
    requires
        role.len() > 0,
    ensures
        role_flag(bools, prefix, role) <==> bools.get(prefix + role) == Some(true),
        !role_flag(bools.insert(prefix + role, false), prefix, role),
        !role_flag(bools.remove(prefix + role), prefix, role),
        role_flag(bools.insert(prefix + role, true), prefix, role),
        other != role ==> role_flag(bools.insert(prefix + role, true), prefix, other) == role_flag(
            bools,
            prefix,
            other,
        ),
        !role_flag(bools, prefix, Seq::empty()),
{
    if other != role {
        if prefix + other == prefix + role {
            assert(other =~= (prefix + other).skip(prefix.len() as int));
            assert(role =~= (prefix + role).skip(prefix.len() as int));
        }
    }
}

/// A registration is refused for a login or an address that cannot be looked up,
/// and where this deployment takes none; it takes them unless it says otherwise.
pub proof fn registration_is_open_unless_closed(
    login: Seq<char>,
    email: Seq<char>,
    internals: ItemView,
)
    ensures
        register_refusal(login, email, internals) is None <==> user_control::acceptable(login)
            && user_control::acceptable(email) && !(internals.bools.contains_key(
            "allow_self_registration"@,
        ) && !internals.bools["allow_self_registration"@]),
        !user_control::acceptable(login) || !user_control::acceptable(email) ==> register_refusal(
            login,
            email,
            internals,
        ) == Some("Invalid login or email"@),
        user_control::acceptable(login) && user_control::acceptable(email) && register_refusal(
            login,
            email,
            internals,
        ) is Some ==> register_refusal(login, email, internals) == Some(
            "Registration is disabled"@,
        ),
{
}

/// The account that a registration makes goes by what was asked for, is on, and
/// holds no password and no role.
pub proof fn a_registered_account_is_bare(login: Seq<char>, email: Seq<char>, k: Seq<char>)
    ensures
        ({
            let made = registered(login, email);
            &&& made.id == u64::MAX
            &&& made.strs.contains_key("login"@) && made.strs["login"@] == login
            &&& made.strs.contains_key("name"@) && made.strs["name"@] == login
            &&& made.strs.contains_key("email"@) && made.strs["email"@] == email
            &&& made.strs.contains_key(k) ==> k == "login"@ || k == "name"@ || k == "email"@
            &&& made.bools.contains_key("self_registered"@) && made.bools["self_registered"@]
            &&& made.bools.contains_key("role_is_active"@) && made.bools["role_is_active"@]
            &&& made.bools.contains_key(k) ==> k == "self_registered"@ || k == "role_is_active"@
            &&& made.u64s == Map::<Seq<char>, u64>::empty()
            &&& made.ids == Map::<Seq<char>, u64>::empty()
        }),
{
    reveal_strlit("email");
    reveal_strlit("login");
    reveal_strlit("name");
    reveal_strlit("self_registered");
    reveal_strlit("role_is_active");
    assert("email"@[0] != "login"@[0]);
    assert("name"@[0] != "login"@[0]);
    assert("name"@[0] != "email"@[0]);
    assert("self_registered"@[0] != "role_is_active"@[0]);
}

/// What lets an account in: the password of an account that has one, or its
/// one-time code while that lives. An account without a password is let in by no
/// hash, and a code is taken letter by letter.
pub proof fn what_lets_an_account_in(usr: ItemView, password: Seq<char>, verified: bool, now: u64)
    ensures
        credential_ok(usr, password, verified, now) <==> ({
            ||| verified && usr.strs.contains_key("password"@) && usr.strs["password"@].len() > 0
            ||| user_control::otp_live(usr, now) && usr.strs.contains_key("otp"@)
                && usr.strs["otp"@] == password
        }),
        !verified && password.len() == 0 ==> !credential_ok(usr, password, verified, now),
{
}

/// A login writes nothing but that it happened and that the code is spent.
pub proof fn a_login_leaves_the_account(usr: ItemView, k: Seq<char>)
    ensures
        ({
            let now = usr.overlaid(logged_in_update(usr.id));
            &&& logged_in_update(usr.id).id == usr.id
            &&& now.bools.contains_key("logged_once"@) && now.bools["logged_once"@]
            &&& now.str("otp"@, "x"@).len() == 0
            &&& now.u64("otp_expires_at"@, 1) == 0
            &&& now.u64("otp_attempts"@, 1) == 0
            &&& k != "otp"@ ==> now.strs.get(k) == usr.strs.get(k)
            &&& k != "logged_once"@ ==> now.bools.get(k) == usr.bools.get(k)
            &&& k != "otp_expires_at"@ && k != "otp_attempts"@ ==> now.u64s.get(k) == usr.u64s.get(
                k,
            )
            &&& now.ids == usr.ids
        }),
{
    reveal_strlit("");
    user_control::otp_keys();
    let now = usr.overlaid(logged_in_update(usr.id));
    assert(now.ids =~= usr.ids);
}

/// A plain answer says whether it worked and why not, and carries nothing.
pub proof fn what_a_plain_answer_says(a: ProcessResult, succeeded: bool, error: Seq<char>)
    requires
        plain_answer(a, succeeded, error),
    ensures
        a.succeeded == succeeded,
        a.error@ == error,
        a.data@.dom() == Set::<Seq<char>>::empty(),
{
}

/// A setting that is filled in wins; an empty one gives way to the deployment's
/// default, and that to the built-in one.
pub proof fn settings_win_over_defaults(
    settings: ItemView,
    internals: ItemView,
    key: Seq<char>,
    default_key: Seq<char>,
    default_value: Seq<char>,
)
    ensures
        ({
            let r = picked(settings, internals, key, default_key, default_value);
            let set = settings.strs.contains_key(key) && settings.strs[key].len() > 0;
            let default_set = internals.strs.contains_key(default_key);
            &&& set ==> r == settings.strs[key]
            &&& !set && default_set ==> r == internals.strs[default_key]
            &&& !set && !default_set ==> r == default_value
        }),
{
}

/// A session is somebody's just where the record holds the very address that it
/// names.
pub proof fn a_session_is_its_address(found: ItemView, identity: Seq<char>, other: Seq<char>)
    ensures
        names(found.with_str("email"@, identity), identity),
        other != identity ==> !names(found.with_str("email"@, identity), other),
        !found.strs.contains_key("email"@) ==> !names(found, identity),
{
}

} // verus!
