//! What an authenticated identity means for this deployment.
//!
//! An identity provider and a directory both end at the same question: this is
//! who they say they are, so which record is that, and may they have it? The
//! address is the key, and once a record has been signed into from one source
//! identity it accepts no other.
use crate::item::{Item, ItemView};
use crate::text;
use crate::text::{same_ignoring_ascii_case, trim};
use vstd::prelude::*;

verus! {

/// The name of the secret that configures the directory.
pub const LDAP_SECRET: &'static str = "ldap";

/// Where the name of a directory entry is remembered on a record.
pub const LDAP_SUBJECT_KEY: &'static str = "ldap_dn";

/// Why a sign-in was refused, as the browser is told.
#[derive(Clone, Copy, Debug, PartialEq, Eq, Structural)]
pub enum Refusal {
    /// The user said no at the provider, or the provider gave up.
    Denied,
    /// The provider will not vouch for the address.
    Unverified,
    /// No account, and this deployment does not accept new ones.
    RegistrationClosed,
    /// There is an account and it is switched off.
    Inactive,
    /// The address belongs to an account tied to a different one at this
    /// provider.
    Mismatched,
    /// Anything that went wrong on the way.
    Failed,
}

impl Refusal {
    /// The word that travels in the address.
    pub open spec fn word(self) -> Seq<char> {
        match self {
            Refusal::Denied => "denied"@,
            Refusal::Unverified => "unverified"@,
            Refusal::RegistrationClosed => "registration_closed"@,
            Refusal::Inactive => "inactive"@,
            Refusal::Mismatched => "mismatched"@,
            Refusal::Failed => "failed"@,
        }
    }

    /// The word that travels in the address.
    pub fn slug(self) -> (r: &'static str)
        ensures
            r@ == self.word(),
    {
        match self {
            Refusal::Denied => "denied",
            Refusal::Unverified => "unverified",
            Refusal::RegistrationClosed => "registration_closed",
            Refusal::Inactive => "inactive",
            Refusal::Mismatched => "mismatched",
            Refusal::Failed => "failed",
        }
    }
}

/// What signing in with an identity does.
#[derive(Clone, Copy, Debug, PartialEq, Eq, Structural)]
pub enum Resolution {
    /// Sign in as the record with this id, remembering the subject.
    SignIn(u64),
    /// There is no such account and one may be made.
    Create,
    Refuse(Refusal),
}

/// Whether two addresses are the same, but for white space around them and the
/// case of ASCII letters.
pub open spec fn same_address(a: Seq<char>, b: Seq<char>) -> bool {
    text::ascii_lower(text::trimmed(a)) == text::ascii_lower(text::trimmed(b))
}

/// What an authenticated identity means.
pub open spec fn resolved(
    existing: Option<ItemView>,
    email: Seq<char>,
    verified: bool,
    subject: Seq<char>,
    subject_key: Seq<char>,
    allow_self_registration: bool,
) -> Resolution {
    if text::trimmed(email).len() == 0 || !verified {
        Resolution::Refuse(Refusal::Unverified)
    } else {
        match existing {
            None => if allow_self_registration {
                Resolution::Create
            } else {
                Resolution::Refuse(Refusal::RegistrationClosed)
            },
            Some(u) => if !same_address(u.str("email"@, Seq::empty()), email) {
                Resolution::Refuse(Refusal::Mismatched)
            } else if !u.bool("role_is_active"@, false) {
                Resolution::Refuse(Refusal::Inactive)
            } else {
                let known = u.str(subject_key, Seq::empty());
                if known.len() > 0 && known != subject {
                    Resolution::Refuse(Refusal::Mismatched)
                } else {
                    Resolution::SignIn(u.id)
                }
            },
        }
    }
}

/// Decides what an authenticated identity means for this deployment.
///
/// `subject` is the source's own lasting name for the account, and
/// `subject_key` where it is remembered, one key per source.
pub fn resolve_identity(
    existing: Option<&Item>,
    email: &str,
    verified: bool,
    subject: &str,
    subject_key: &str,
    allow_self_registration: bool,
) -> (r: Resolution)
    ensures
        r == resolved(
            match existing {
                Some(i) => Some(i@),
                None => None,
            },
            email@,
            verified,
            subject@,
            subject_key@,
            allow_self_registration,
        ),
{
    proof {
        reveal_strlit("");
        assert(""@ =~= Seq::<char>::empty());
    }
    let address = trim(email);
    if address.as_str().is_empty() {
        return Resolution::Refuse(Refusal::Unverified);
    }
    if !verified {
        return Resolution::Refuse(Refusal::Unverified);
    }
    let u = match existing {
        None => {
            return if allow_self_registration {
                Resolution::Create
            } else {
                Resolution::Refuse(Refusal::RegistrationClosed)
            };
        },
        Some(u) => u,
    };
    let held = trim(u.safe_str("email", "").as_str());
    if !same_ignoring_ascii_case(held.as_str(), address.as_str()) {
        return Resolution::Refuse(Refusal::Mismatched);
    }
    if !u.safe_bool("role_is_active", false) {
        return Resolution::Refuse(Refusal::Inactive);
    }
    let known = u.safe_str(subject_key, "");
    if !known.as_str().is_empty() && !text::same(known.as_str(), subject) {
        return Resolution::Refuse(Refusal::Mismatched);
    }
    Resolution::SignIn(u.id)
}

/// What the directory is asked with.
#[derive(Debug, PartialEq)]
pub struct LdapConfig {
    pub url: String,
    pub bind_dn: String,
    pub bind_password: String,
    pub base_dn: String,
    pub user_filter: String,
    pub user_dn_template: String,
    pub email_attribute: String,
    pub name_attribute: String,
    pub allow_plaintext: bool,
}

/// What the directory is asked with, as texts.
#[verifier::ext_equal]
pub struct LdapConfigView {
    pub url: Seq<char>,
    pub bind_dn: Seq<char>,
    pub bind_password: Seq<char>,
    pub base_dn: Seq<char>,
    pub user_filter: Seq<char>,
    pub user_dn_template: Seq<char>,
    pub email_attribute: Seq<char>,
    pub name_attribute: Seq<char>,
    pub allow_plaintext: bool,
}

impl View for LdapConfig {
    type V = LdapConfigView;

    open spec fn view(&self) -> LdapConfigView {
        LdapConfigView {
            url: self.url@,
            bind_dn: self.bind_dn@,
            bind_password: self.bind_password@,
            base_dn: self.base_dn@,
            user_filter: self.user_filter@,
            user_dn_template: self.user_dn_template@,
            email_attribute: self.email_attribute@,
            name_attribute: self.name_attribute@,
            allow_plaintext: self.allow_plaintext,
        }
    }
}

/// The directory's configuration, as a secret holds it.
pub open spec fn directory(v: ItemView) -> LdapConfigView {
    LdapConfigView {
        url: v.str("url"@, Seq::empty()),
        bind_dn: v.str("bind_dn"@, Seq::empty()),
        bind_password: v.str("bind_password"@, Seq::empty()),
        base_dn: v.str("base_dn"@, Seq::empty()),
        user_filter: v.str("user_filter"@, Seq::empty()),
        user_dn_template: v.str("user_dn_template"@, Seq::empty()),
        email_attribute: v.str("email_attribute"@, Seq::empty()),
        name_attribute: v.str("name_attribute"@, Seq::empty()),
        allow_plaintext: v.bool("allow_plaintext"@, false),
    }
}

/// The directory's configuration out of the secret that holds it. A directory
/// without one is not consulted.
pub fn ldap_config(secret: Option<&Item>) -> (r: Option<LdapConfig>)
    ensures
        match secret {
            Some(item) => r is Some && r->Some_0@ == directory(item@),
            None => r is None,
        },
{
    proof {
        reveal_strlit("");
        assert(""@ =~= Seq::<char>::empty());
    }
    match secret {
        Some(item) => Some(
            LdapConfig {
                url: item.safe_str("url", ""),
                bind_dn: item.safe_str("bind_dn", ""),
                bind_password: item.safe_str("bind_password", ""),
                base_dn: item.safe_str("base_dn", ""),
                user_filter: item.safe_str("user_filter", ""),
                user_dn_template: item.safe_str("user_dn_template", ""),
                email_attribute: item.safe_str("email_attribute", ""),
                name_attribute: item.safe_str("name_attribute", ""),
                allow_plaintext: item.safe_bool("allow_plaintext", false),
            },
        ),
        None => None,
    }
}

/// The record that carrying out a resolution writes, if it writes one.
pub open spec fn record_written(
    resolution: Resolution,
    email: Seq<char>,
    name: Seq<char>,
    subject: Seq<char>,
    subject_key: Seq<char>,
) -> Option<ItemView> {
    match resolution {
        Resolution::Refuse(_) => None,
        Resolution::SignIn(id) => Some(
            ItemView::empty().numbered(id).with_str(subject_key, subject).with_bool(
                "logged_once"@,
                true,
            ),
        ),
        Resolution::Create => Some(
            ItemView::empty().with_str("login"@, email).with_str("email"@, email).with_str(
                "name"@,
                if text::trimmed(name).len() == 0 {
                    email
                } else {
                    text::trimmed(name)
                },
            ).with_str(subject_key, subject).with_bool("self_registered"@, true).with_bool(
                "role_is_active"@,
                true,
            ).with_bool("logged_once"@, true),
        ),
    }
}

/// The record that carrying out a resolution writes: merged into the record
/// that is signed in as, or a new one. A refusal writes nothing.
pub fn record_for(
    resolution: &Resolution,
    email: &str,
    name: &str,
    subject: &str,
    subject_key: &str,
) -> (r: Option<Item>)
    ensures
        match r {
            Some(i) => record_written(*resolution, email@, name@, subject@, subject_key@) == Some(
                i@,
            ),
            None => record_written(*resolution, email@, name@, subject@, subject_key@) is None,
        },
{
    match resolution {
        Resolution::Refuse(_) => None,
        Resolution::SignIn(id) => {
            let mut itm = Item::new();
            itm.id = *id;
            itm.set_str(subject_key, subject);
            itm.set_bool("logged_once", true);
            Some(itm)
        },
        Resolution::Create => {
            let mut itm = Item::new();
            itm.set_str("login", email);
            itm.set_str("email", email);
            let shown = trim(name);
            if shown.as_str().is_empty() {
                itm.set_str("name", email);
            } else {
                itm.set_str("name", shown.as_str());
            }
            itm.set_str(subject_key, subject);
            itm.set_bool("self_registered", true);
            itm.set_bool("role_is_active", true);
            itm.set_bool("logged_once", true);
            Some(itm)
        },
    }
}

/// Nobody is signed in as a record unless the address was vouched for, is the
/// one that the record holds, the account is on, and no other identity of that
/// source was there before.
pub proof fn sign_in_needs_everything(
    existing: Option<ItemView>,
    email: Seq<char>,
    verified: bool,
    subject: Seq<char>,
    subject_key: Seq<char>,
    open: bool,
    id: u64,
)
    requires
        resolved(existing, email, verified, subject, subject_key, open) == Resolution::SignIn(id),
    ensures
        verified,
        existing is Some,
        existing->Some_0.id == id,
        same_address(existing->Some_0.str("email"@, Seq::empty()), email),
        existing->Some_0.bool("role_is_active"@, false),
        existing->Some_0.str(subject_key, Seq::empty()).len() == 0 || existing->Some_0.str(
            subject_key,
            Seq::empty(),
        ) == subject,
{
}

/// An account is made only for a vouched-for address that no record has, and
/// only where registration is open.
pub proof fn creation_needs_open_registration(
    existing: Option<ItemView>,
    email: Seq<char>,
    verified: bool,
    subject: Seq<char>,
    subject_key: Seq<char>,
    open: bool,
)
    requires
        resolved(existing, email, verified, subject, subject_key, open) == Resolution::Create,
    ensures
        verified,
        existing is None,
        open,
{
}

/// Once a record was signed into by one identity of a source, it refuses every
/// other identity of that source, and still takes the first.
pub proof fn first_identity_is_kept(
    existing: ItemView,
    email: Seq<char>,
    name: Seq<char>,
    first: Seq<char>,
    other: Seq<char>,
    key: Seq<char>,
    open: bool,
)
    requires
        resolved(Some(existing), email, true, first, key, open) == Resolution::SignIn(existing.id),
        key != "email"@,
        first.len() > 0,
        other != first,
    ensures
        ({
            let after = existing.overlaid(
                record_written(Resolution::SignIn(existing.id), email, name, first, key)->Some_0,
            );
            &&& resolved(Some(after), email, true, first, key, open) == Resolution::SignIn(
                existing.id,
            )
            &&& resolved(Some(after), email, true, other, key, open) == Resolution::Refuse(
                Refusal::Mismatched,
            )
        }),
{
    reveal_strlit("logged_once");
    reveal_strlit("role_is_active");
    assert("logged_once"@[0] != "role_is_active"@[0]);
}

/// Signing in again right after an account was made leads to that account.
pub proof fn created_account_signs_in(
    id: u64,
    email: Seq<char>,
    name: Seq<char>,
    subject: Seq<char>,
    key: Seq<char>,
    open: bool,
)
    requires
        text::trimmed(email).len() > 0,
        key != "email"@,
        key != "login"@,
        key != "name"@,
    ensures
        resolved(
            Some(
                record_written(Resolution::Create, email, name, subject, key)->Some_0.numbered(id),
            ),
            email,
            true,
            subject,
            key,
            open,
        ) == Resolution::SignIn(id),
{
    reveal_strlit("logged_once");
    reveal_strlit("role_is_active");
    reveal_strlit("self_registered");
    reveal_strlit("email");
    reveal_strlit("login");
    reveal_strlit("name");
    assert("logged_once"@[0] != "role_is_active"@[0]);
    assert("self_registered"@[0] != "role_is_active"@[0]);
    assert("email"@[0] != "login"@[0]);
    assert("email"@[0] != "name"@[0]);
}

/// An account that a first sign-in makes is found again by the address that was
/// vouched for, as its login and as its address, whatever the person is called and
/// whatever the source calls them. It is a new record, it is on, and it remembers
/// who came first.
pub proof fn a_made_account_goes_by_its_address(
    email: Seq<char>,
    name: Seq<char>,
    subject: Seq<char>,
    key: Seq<char>,
)
    requires
        key != "login"@,
        key != "email"@,
        key != "name"@,
    ensures
        record_written(Resolution::Create, email, name, subject, key) is Some,
        ({
            let made = record_written(Resolution::Create, email, name, subject, key)->Some_0;
            &&& made.id == u64::MAX
            &&& made.strs.contains_key("login"@) && made.strs["login"@] == email
            &&& made.strs.contains_key("email"@) && made.strs["email"@] == email
            &&& made.strs.contains_key(key) && made.strs[key] == subject
            &&& made.strs.contains_key("name"@)
            &&& text::trimmed(name).len() == 0 ==> made.strs["name"@] == email
            &&& text::trimmed(name).len() > 0 ==> made.strs["name"@] == text::trimmed(name)
            &&& forall|k: Seq<char>| #[trigger]
                made.strs.contains_key(k) ==> k == "login"@ || k == "email"@ || k == "name"@ || k
                    == key
            &&& made.bools.contains_key("role_is_active"@) && made.bools["role_is_active"@]
            &&& made.bools.contains_key("self_registered"@) && made.bools["self_registered"@]
            &&& made.bools.contains_key("logged_once"@) && made.bools["logged_once"@]
            &&& made.bools.dom().len() == 3
            &&& made.u64s == Map::<Seq<char>, u64>::empty()
            &&& made.ids == Map::<Seq<char>, u64>::empty()
        }),
{
    reveal_strlit("logged_once");
    reveal_strlit("role_is_active");
    reveal_strlit("self_registered");
    reveal_strlit("email");
    reveal_strlit("login");
    reveal_strlit("name");
    assert("logged_once"@[0] != "role_is_active"@[0]);
    assert("self_registered"@[0] != "role_is_active"@[0]);
    assert("self_registered"@[0] != "logged_once"@[0]);
    assert("email"@[0] != "login"@[0]);
    assert("email"@[0] != "name"@[0]);
    assert("login"@[0] != "name"@[0]);
    let none = Map::<Seq<char>, bool>::empty();
    let one = none.insert("self_registered"@, true);
    let two = one.insert("role_is_active"@, true);
    assert(none.dom().len() == 0);
    assert(one.dom() =~= none.dom().insert("self_registered"@));
    assert(two.dom() =~= one.dom().insert("role_is_active"@));
    assert(two.insert("logged_once"@, true).dom() =~= two.dom().insert("logged_once"@));
}

/// Signing in leaves an account as it is, but for who came and that somebody came.
pub proof fn signing_in_keeps_the_account(
    id: u64,
    was: ItemView,
    email: Seq<char>,
    name: Seq<char>,
    subject: Seq<char>,
    key: Seq<char>,
    k: Seq<char>,
)
    ensures
        record_written(Resolution::SignIn(id), email, name, subject, key) is Some,
        ({
            let update = record_written(Resolution::SignIn(id), email, name, subject, key)->Some_0;
            let now = was.overlaid(update);
            &&& update.id == id
            &&& now.strs.contains_key(key) && now.strs[key] == subject
            &&& now.bools.contains_key("logged_once"@) && now.bools["logged_once"@]
            &&& k != key ==> now.strs.get(k) == was.strs.get(k)
            &&& k != "logged_once"@ ==> now.bools.get(k) == was.bools.get(k)
            &&& now.u64s == was.u64s
            &&& now.ids == was.ids
            &&& now.strids == was.strids
            &&& now.strstrs == was.strstrs
        }),
{
    let update = record_written(Resolution::SignIn(id), email, name, subject, key)->Some_0;
    let now = was.overlaid(update);
    assert(now.u64s =~= was.u64s);
    assert(now.ids =~= was.ids);
    assert(now.strids =~= was.strids);
    assert(now.strstrs =~= was.strstrs);
}

/// A refusal writes nothing.
pub proof fn a_refusal_writes_nothing(
    why: Refusal,
    email: Seq<char>,
    name: Seq<char>,
    subject: Seq<char>,
    key: Seq<char>,
)
    ensures
        record_written(Resolution::Refuse(why), email, name, subject, key) is None,
{
}

/// A sign-in that has everything it needs is owed: the address is vouched for and,
/// but for white space around it and the case of its letters, the one that the
/// account holds, the account is on, and nobody else came from that source.
pub proof fn sign_in_is_owed(
    account: ItemView,
    email: Seq<char>,
    subject: Seq<char>,
    key: Seq<char>,
    open: bool,
)
    requires
        text::trimmed(email).len() > 0,
        account.strs.contains_key("email"@),
        text::ascii_lower(text::trimmed(account.strs["email"@])) == text::ascii_lower(
            text::trimmed(email),
        ),
        account.bools.contains_key("role_is_active"@),
        account.bools["role_is_active"@],
        !account.strs.contains_key(key) || account.strs[key].len() == 0 || account.strs[key]
            == subject,
    ensures
        resolved(Some(account), email, true, subject, key, open) == Resolution::SignIn(account.id),
{
}

/// Each refusal has its reason, in this order: an address that is not vouched for,
/// no account where none may be made, another address, an account that is off, and
/// somebody else from that source. Without any of them an account may be made just
/// where there is none.
pub proof fn refusals_have_their_reasons(
    existing: Option<ItemView>,
    email: Seq<char>,
    verified: bool,
    subject: Seq<char>,
    key: Seq<char>,
    open: bool,
)
    ensures
        ({
            let r = resolved(existing, email, verified, subject, key, open);
            let vouched = verified && text::trimmed(email).len() > 0;
            let own = existing is Some && text::ascii_lower(
                text::trimmed(existing->Some_0.str("email"@, Seq::empty())),
            ) == text::ascii_lower(text::trimmed(email));
            let on = existing is Some && existing->Some_0.bools.contains_key("role_is_active"@)
                && existing->Some_0.bools["role_is_active"@];
            &&& r == Resolution::Refuse(Refusal::Unverified) <==> !vouched
            &&& r == Resolution::Create <==> vouched && existing is None && open
            &&& r == Resolution::Refuse(Refusal::RegistrationClosed) <==> vouched && existing
                is None && !open
            &&& r == Resolution::Refuse(Refusal::Inactive) <==> vouched && own && !on
            &&& vouched && existing is Some && !own ==> r == Resolution::Refuse(
                Refusal::Mismatched,
            )
            &&& r is SignIn ==> vouched && own && on && r->SignIn_0 == existing->Some_0.id
            &&& r != Resolution::Refuse(Refusal::Denied)
            &&& r != Resolution::Refuse(Refusal::Failed)
        }),
{
}

/// Each refusal is told to the browser by a word of its own.
pub proof fn refusals_are_told_apart()
    ensures
        Refusal::Denied.word() == "denied"@,
        Refusal::Unverified.word() == "unverified"@,
        Refusal::RegistrationClosed.word() == "registration_closed"@,
        Refusal::Inactive.word() == "inactive"@,
        Refusal::Mismatched.word() == "mismatched"@,
        Refusal::Failed.word() == "failed"@,
{
}

/// The directory is asked with what its secret says, field by field; what the
/// secret does not say is empty, and nothing travels in the clear unless it says so.
pub proof fn the_directory_is_asked_as_configured(v: ItemView)
    ensures
        directory(v).url == v.str("url"@, Seq::empty()),
        directory(v).bind_dn == v.str("bind_dn"@, Seq::empty()),
        directory(v).bind_password == v.str("bind_password"@, Seq::empty()),
        directory(v).base_dn == v.str("base_dn"@, Seq::empty()),
        directory(v).user_filter == v.str("user_filter"@, Seq::empty()),
        directory(v).user_dn_template == v.str("user_dn_template"@, Seq::empty()),
        directory(v).email_attribute == v.str("email_attribute"@, Seq::empty()),
        directory(v).name_attribute == v.str("name_attribute"@, Seq::empty()),
        directory(v).allow_plaintext <==> v.bools.contains_key("allow_plaintext"@)
            && v.bools["allow_plaintext"@],
{
}

} // verus!
