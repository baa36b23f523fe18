//! Configuring the ways in.
//!
//! Each way of signing in that is not a local password is one entry of the
//! secret store, and the entry's presence is what enables it. What was written
//! as a secret is never read back: what comes out says only whether there is
//! one. So an empty secret in what goes in means that it stays as it is, and
//! removing a way in is an operation of its own.
use crate::item::{Item, ItemView, ProcessResult};
use crate::json::{Json, JsonView};
use crate::server::oauth;
use crate::server::oauth::{provider_config, redirect_uri};
use crate::server::signin;
use crate::server::signin::{ldap_config, LdapConfig, LdapConfigView};
use crate::state::secrets;
use crate::state::secrets::{SecretStore, SecretsView};
use crate::text;
use crate::text::{cat, cat3, owned, same, trim};
use crate::util::oidc::{Provider, ProviderConfig, ProviderConfigView};
use vstd::prelude::*;

verus! {

/// The secret that configures the directory.
pub const LDAP_SECRET: &'static str = "ldap";

/// The settings of one way in, as a form submits them. What is absent was not
/// on the form.
pub struct ConfigUpdate {
    pub provider: String,
    pub client_id: Option<String>,
    pub client_secret: Option<String>,
    pub team_id: Option<String>,
    pub key_id: Option<String>,
    pub private_key: Option<String>,
    pub redirect_uri: Option<String>,
    pub url: Option<String>,
    pub bind_dn: Option<String>,
    pub bind_password: Option<String>,
    pub base_dn: Option<String>,
    pub user_filter: Option<String>,
    pub user_dn_template: Option<String>,
    pub email_attribute: Option<String>,
    pub name_attribute: Option<String>,
    pub allow_plaintext: Option<bool>,
}

impl ConfigUpdate {
    /// A form for a way in with nothing on it.
    pub fn blank(provider: &str) -> (r: ConfigUpdate)
        ensures
            r.provider@ == provider@,
            r.client_id is None && r.client_secret is None && r.team_id is None && r.key_id is None,
            r.private_key is None && r.redirect_uri is None && r.url is None && r.bind_dn is None,
            r.bind_password is None && r.base_dn is None && r.user_filter is None,
            r.user_dn_template is None && r.email_attribute is None && r.name_attribute is None,
            r.allow_plaintext is None,
    {
        ConfigUpdate {
            provider: owned(provider),
            client_id: None,
            client_secret: None,
            team_id: None,
            key_id: None,
            private_key: None,
            redirect_uri: None,
            url: None,
            bind_dn: None,
            bind_password: None,
            base_dn: None,
            user_filter: None,
            user_dn_template: None,
            email_attribute: None,
            name_attribute: None,
            allow_plaintext: None,
        }
    }
}

// ---------------------------------------------------------------------------
// Folding a form onto what is stored
// ---------------------------------------------------------------------------

/// A field that is on the screen: what was typed, or what was there where the
/// form did not have it.
pub open spec fn shown_field(field: Option<String>, existing: Seq<char>) -> Seq<char> {
    match field {
        Some(v) => text::trimmed(v@),
        None => existing,
    }
}

/// A field that is never on the screen: what was typed, or what was there where
/// nothing was.
pub open spec fn secret_field(field: Option<String>, existing: Seq<char>) -> Seq<char> {
    match field {
        Some(v) => if text::trimmed(v@).len() > 0 {
            text::trimmed(v@)
        } else {
            existing
        },
        None => existing,
    }
}

fn plain(field: &Option<String>, existing: &str) -> (r: String)
    ensures
        r@ == shown_field(*field, existing@),
{
    match field {
        Some(v) => trim(v.as_str()),
        None => owned(existing),
    }
}

fn secret(field: &Option<String>, existing: &str) -> (r: String)
    ensures
        r@ == secret_field(*field, existing@),
{
    match field {
        Some(v) => {
            let typed = trim(v.as_str());
            if typed.as_str().is_empty() {
                owned(existing)
            } else {
                typed
            }
        },
        None => owned(existing),
    }
}

/// A provider's settings with a form folded onto them.
pub open spec fn provider_folded(current: ProviderConfigView, u: ConfigUpdate) -> ProviderConfigView {
    ProviderConfigView {
        client_id: shown_field(u.client_id, current.client_id),
        client_secret: secret_field(u.client_secret, current.client_secret),
        team_id: shown_field(u.team_id, current.team_id),
        key_id: shown_field(u.key_id, current.key_id),
        private_key: secret_field(u.private_key, current.private_key),
    }
}

/// Folds a form onto a provider's settings.
pub fn apply_update(current: &ProviderConfig, update: &ConfigUpdate) -> (r: ProviderConfig)
    ensures
        r@ == provider_folded(current@, *update),
{
    ProviderConfig {
        client_id: plain(&update.client_id, current.client_id.as_str()),
        client_secret: secret(&update.client_secret, current.client_secret.as_str()),
        team_id: plain(&update.team_id, current.team_id.as_str()),
        key_id: plain(&update.key_id, current.key_id.as_str()),
        private_key: secret(&update.private_key, current.private_key.as_str()),
    }
}

/// The directory's settings with a form folded onto them.
pub open spec fn directory_folded(current: LdapConfigView, u: ConfigUpdate) -> LdapConfigView {
    LdapConfigView {
        url: shown_field(u.url, current.url),
        bind_dn: shown_field(u.bind_dn, current.bind_dn),
        bind_password: secret_field(u.bind_password, current.bind_password),
        base_dn: shown_field(u.base_dn, current.base_dn),
        user_filter: shown_field(u.user_filter, current.user_filter),
        user_dn_template: shown_field(u.user_dn_template, current.user_dn_template),
        email_attribute: shown_field(u.email_attribute, current.email_attribute),
        name_attribute: shown_field(u.name_attribute, current.name_attribute),
        allow_plaintext: match u.allow_plaintext {
            Some(b) => b,
            None => current.allow_plaintext,
        },
    }
}

/// Folds a form onto the directory's settings.
pub fn apply_ldap_update(current: &LdapConfig, update: &ConfigUpdate) -> (r: LdapConfig)
    ensures
        r@ == directory_folded(current@, *update),
{
    LdapConfig {
        url: plain(&update.url, current.url.as_str()),
        bind_dn: plain(&update.bind_dn, current.bind_dn.as_str()),
        bind_password: secret(&update.bind_password, current.bind_password.as_str()),
        base_dn: plain(&update.base_dn, current.base_dn.as_str()),
        user_filter: plain(&update.user_filter, current.user_filter.as_str()),
        user_dn_template: plain(&update.user_dn_template, current.user_dn_template.as_str()),
        email_attribute: plain(&update.email_attribute, current.email_attribute.as_str()),
        name_attribute: plain(&update.name_attribute, current.name_attribute.as_str()),
        allow_plaintext: match update.allow_plaintext {
            Some(b) => b,
            None => current.allow_plaintext,
        },
    }
}

/// A form cannot wipe a secret: where one is stored, one is stored after.
pub proof fn a_form_wipes_no_secret(current: ProviderConfigView, u: ConfigUpdate)
    ensures
        current.client_secret.len() > 0 ==> provider_folded(current, u).client_secret.len() > 0,
        current.private_key.len() > 0 ==> provider_folded(current, u).private_key.len() > 0,
{
}

/// A form cannot wipe the password of the service account either.
pub proof fn a_form_wipes_no_password(current: LdapConfigView, u: ConfigUpdate)
    ensures
        current.bind_password.len() > 0 ==> directory_folded(current, u).bind_password.len() > 0,
{
}

/// A form with nothing on it leaves everything as it was.
pub proof fn a_blank_form_changes_nothing(
    provider: ProviderConfigView,
    directory: LdapConfigView,
    u: ConfigUpdate,
)
    requires
        u.client_id is None && u.client_secret is None && u.team_id is None && u.key_id is None,
        u.private_key is None && u.redirect_uri is None && u.url is None && u.bind_dn is None,
        u.bind_password is None && u.base_dn is None && u.user_filter is None,
        u.user_dn_template is None && u.email_attribute is None && u.name_attribute is None,
        u.allow_plaintext is None,
    ensures
        provider_folded(provider, u) == provider,
        directory_folded(directory, u) == directory,
{
}

/// Sending the same form twice changes no more than sending it once.
pub proof fn a_form_settles(
    provider: ProviderConfigView,
    directory: LdapConfigView,
    u: ConfigUpdate,
)
    ensures
        provider_folded(provider_folded(provider, u), u) == provider_folded(provider, u),
        directory_folded(directory_folded(directory, u), u) == directory_folded(directory, u),
{
}

// ---------------------------------------------------------------------------
// What an administrator sees
// ---------------------------------------------------------------------------

/// A secret by name, where the store has it.
pub open spec fn entry(s: SecretsView, name: Seq<char>) -> Option<ItemView> {
    if s.names.contains_key(name) {
        Some(s.entries[s.names[name]])
    } else {
        None
    }
}

/// A provider's settings: what its secret holds, blank where there is none.
pub open spec fn provider_settings(stored: Option<ItemView>) -> ProviderConfigView {
    match stored {
        Some(v) => oauth::configuration(v),
        None => ProviderConfigView::blank(),
    }
}

/// The directory's settings: what its secret holds, blank where there is none.
pub open spec fn directory_settings(stored: Option<ItemView>) -> LdapConfigView {
    match stored {
        Some(v) => signin::directory(v),
        None => LdapConfigView {
            url: Seq::empty(),
            bind_dn: Seq::empty(),
            bind_password: Seq::empty(),
            base_dn: Seq::empty(),
            user_filter: Seq::empty(),
            user_dn_template: Seq::empty(),
            email_attribute: Seq::empty(),
            name_attribute: Seq::empty(),
            allow_plaintext: false,
        },
    }
}

/// What is behind a reference, where there is one.
pub open spec fn seen(i: Option<&Item>) -> Option<ItemView> {
    match i {
        Some(v) => Some(v@),
        None => None,
    }
}

fn provider_settings_of(stored: Option<&Item>) -> (r: ProviderConfig)
    ensures
        r@ == provider_settings(seen(stored)),
{
    match provider_config(stored) {
        Some(c) => c,
        None => ProviderConfig::blank(),
    }
}

fn directory_settings_of(stored: Option<&Item>) -> (r: LdapConfig)
    ensures
        r@ == directory_settings(seen(stored)),
{
    match ldap_config(stored) {
        Some(c) => c,
        None => LdapConfig {
            url: String::new(),
            bind_dn: String::new(),
            bind_password: String::new(),
            base_dn: String::new(),
            user_filter: String::new(),
            user_dn_template: String::new(),
            email_attribute: String::new(),
            name_attribute: String::new(),
            allow_plaintext: false,
        },
    }
}

/// What is wrong with stored settings; nothing is wrong where none are stored.
pub open spec fn problem_of(stored: Option<ItemView>, found: Seq<char>) -> Seq<char> {
    if stored is Some {
        found
    } else {
        Seq::empty()
    }
}

/// The redirect URI that an operator set, as opposed to the one in use.
pub open spec fn set_redirect_uri(stored: Option<ItemView>) -> Seq<char> {
    match stored {
        Some(v) => v.str("redirect_uri"@, Seq::empty()),
        None => Seq::empty(),
    }
}

/// The redirect URI that an operator set, as opposed to the one in use.
pub fn stored_redirect_uri(stored: Option<&Item>) -> (r: String)
    ensures
        r@ == set_redirect_uri(seen(stored)),
{
    proof {
        reveal_strlit("");
        assert(""@ =~= Seq::<char>::empty());
    }
    match stored {
        Some(v) => v.safe_str("redirect_uri", ""),
        None => String::new(),
    }
}

/// One provider as an administrator sees it.
pub open spec fn provider_shown(
    provider: Provider,
    stored: Option<ItemView>,
    public_url: Seq<char>,
    found: Seq<char>,
) -> JsonView {
    let cfg = provider_settings(stored);
    let problem = problem_of(stored, found);
    let held = match provider {
        Provider::Google => cfg.client_secret,
        Provider::Apple => cfg.private_key,
    };
    JsonView::object().with("id"@, JsonView::Text(provider.word())).with(
        "name"@,
        JsonView::Text(provider.title()),
    ).with("configured"@, JsonView::Bool(stored is Some && problem.len() == 0)).with(
        "problem"@,
        JsonView::Text(problem),
    ).with("client_id"@, JsonView::Text(cfg.client_id)).with(
        "team_id"@,
        JsonView::Text(cfg.team_id),
    ).with("key_id"@, JsonView::Text(cfg.key_id)).with(
        "redirect_uri"@,
        JsonView::Text(set_redirect_uri(stored)),
    ).with(
        "effective_redirect_uri"@,
        JsonView::Text(oauth::callback_address(stored, public_url, provider)),
    ).with("has_secret"@, JsonView::Bool(text::trimmed(held).len() > 0))
}

fn flag(b: bool) -> (r: Json)
    ensures
        r@ == JsonView::Bool(b),
{
    Json::Bool(b)
}

fn problem_text(stored: Option<&Item>, found: &str) -> (r: String)
    ensures
        r@ == problem_of(seen(stored), found@),
{
    match stored {
        Some(_) => owned(found),
        None => String::new(),
    }
}

/// One provider as an administrator sees it. `found` is what is wrong with the
/// stored settings, empty where nothing is.
pub fn admin_view(
    provider: Provider,
    stored: Option<&Item>,
    public_url: &str,
    found: &str,
) -> (r: Json)
    ensures
        r@ == provider_shown(provider, seen(stored), public_url@, found@),
{
    let cfg = provider_settings_of(stored);
    let problem = problem_text(stored, found);
    let has_secret = match provider {
        Provider::Google => !trim(cfg.client_secret.as_str()).as_str().is_empty(),
        Provider::Apple => !trim(cfg.private_key.as_str()).as_str().is_empty(),
    };
    let configured = stored.is_some() && problem.as_str().is_empty();
    Json::object().with_text("id", provider.id()).with_text("name", provider.display_name()).with(
        "configured",
        flag(configured),
    ).with_text("problem", problem.as_str()).with_text("client_id", cfg.client_id.as_str()).with_text(
        "team_id",
        cfg.team_id.as_str(),
    ).with_text("key_id", cfg.key_id.as_str()).with_text(
        "redirect_uri",
        stored_redirect_uri(stored).as_str(),
    ).with_text("effective_redirect_uri", redirect_uri(stored, public_url, provider).as_str()).with(
        "has_secret",
        flag(has_secret),
    )
}

/// The directory as an administrator sees it.
pub open spec fn directory_shown(stored: Option<ItemView>, found: Seq<char>) -> JsonView {
    let cfg = directory_settings(stored);
    let problem = problem_of(stored, found);
    JsonView::object().with(
        "configured"@,
        JsonView::Bool(stored is Some && problem.len() == 0),
    ).with("problem"@, JsonView::Text(problem)).with("url"@, JsonView::Text(cfg.url)).with(
        "bind_dn"@,
        JsonView::Text(cfg.bind_dn),
    ).with("base_dn"@, JsonView::Text(cfg.base_dn)).with(
        "user_filter"@,
        JsonView::Text(cfg.user_filter),
    ).with("user_dn_template"@, JsonView::Text(cfg.user_dn_template)).with(
        "email_attribute"@,
        JsonView::Text(cfg.email_attribute),
    ).with("name_attribute"@, JsonView::Text(cfg.name_attribute)).with(
        "allow_plaintext"@,
        JsonView::Bool(cfg.allow_plaintext),
    ).with("has_secret"@, JsonView::Bool(text::trimmed(cfg.bind_password).len() > 0))
}

/// The directory as an administrator sees it. `found` is what is wrong with
/// the stored settings, empty where nothing is.
pub fn ldap_admin_view(stored: Option<&Item>, found: &str) -> (r: Json)
    ensures
        r@ == directory_shown(seen(stored), found@),
{
    let cfg = directory_settings_of(stored);
    let problem = problem_text(stored, found);
    let configured = stored.is_some() && problem.as_str().is_empty();
    let has_secret = !trim(cfg.bind_password.as_str()).as_str().is_empty();
    Json::object().with("configured", flag(configured)).with_text(
        "problem",
        problem.as_str(),
    ).with_text("url", cfg.url.as_str()).with_text("bind_dn", cfg.bind_dn.as_str()).with_text(
        "base_dn",
        cfg.base_dn.as_str(),
    ).with_text("user_filter", cfg.user_filter.as_str()).with_text(
        "user_dn_template",
        cfg.user_dn_template.as_str(),
    ).with_text("email_attribute", cfg.email_attribute.as_str()).with_text(
        "name_attribute",
        cfg.name_attribute.as_str(),
    ).with("allow_plaintext", flag(cfg.allow_plaintext)).with("has_secret", flag(has_secret))
}

/// What is configured, for the screen that configures it.
pub fn auth_config(google: Json, apple: Json, ldap: Json) -> (r: Json)
    ensures
        r@ == JsonView::object().with("providers"@, JsonView::array().and(google@).and(apple@)).with(
            "ldap"@,
            ldap@,
        ),
{
    Json::object().with("providers", Json::array().and(google).and(apple)).with("ldap", ldap)
}

/// What an administrator sees of a provider does not depend on the secrets,
/// but for whether there is one.
pub proof fn secrets_are_not_shown(
    provider: Provider,
    a: ItemView,
    b: ItemView,
    public_url: Seq<char>,
    found: Seq<char>,
)
    requires
        forall|k: Seq<char>|
            k != "client_secret"@ && k != "private_key"@ ==> #[trigger] a.str(k, Seq::empty())
                == b.str(k, Seq::empty()),
        text::trimmed(a.str("client_secret"@, Seq::empty())).len() > 0,
        text::trimmed(b.str("client_secret"@, Seq::empty())).len() > 0,
        text::trimmed(a.str("private_key"@, Seq::empty())).len() > 0,
        text::trimmed(b.str("private_key"@, Seq::empty())).len() > 0,
    ensures
        provider_shown(provider, Some(a), public_url, found) == provider_shown(
            provider,
            Some(b),
            public_url,
            found,
        ),
{
    reveal_strlit("client_id");
    reveal_strlit("client_secret");
    reveal_strlit("team_id");
    reveal_strlit("key_id");
    reveal_strlit("private_key");
    reveal_strlit("redirect_uri");
    assert("client_id"@.len() == 9);
    assert("client_secret"@.len() == 13);
    assert("private_key"@.len() == 11);
    assert("team_id"@.len() == 7);
    assert("key_id"@.len() == 6);
    assert("redirect_uri"@.len() == 12);
    assert(a.str("client_id"@, Seq::empty()) == b.str("client_id"@, Seq::empty()));
    assert(a.str("team_id"@, Seq::empty()) == b.str("team_id"@, Seq::empty()));
    assert(a.str("key_id"@, Seq::empty()) == b.str("key_id"@, Seq::empty()));
    assert(a.str("redirect_uri"@, Seq::empty()) == b.str("redirect_uri"@, Seq::empty()));
}

// ---------------------------------------------------------------------------
// Storing and removing
// ---------------------------------------------------------------------------

/// One of the ways in that can be configured.
#[derive(Clone, Copy, Debug, PartialEq, Eq, Structural)]
pub enum Way {
    Directory,
    By(Provider),
}

/// The way in that a word names.
pub open spec fn way_named(word: Seq<char>) -> Option<Way> {
    if text::trimmed(word) == LDAP_SECRET@ {
        Some(Way::Directory)
    } else {
        match Provider::named(text::trimmed(word)) {
            Some(p) => Some(Way::By(p)),
            None => None,
        }
    }
}

/// The way in that a word names.
pub fn way_of(word: &str) -> (r: Option<Way>)
    ensures
        r == way_named(word@),
{
    let w = trim(word);
    if same(w.as_str(), LDAP_SECRET) {
        return Some(Way::Directory);
    }
    match Provider::from_id(w.as_str()) {
        Some(p) => Some(Way::By(p)),
        None => None,
    }
}

/// The id under which an entry of this name is stored, unset where there is none.
pub open spec fn id_of(s: SecretsView, name: Seq<char>) -> u64 {
    match entry(s, name) {
        Some(v) => v.id,
        None => u64::MAX,
    }
}

/// The record that stores a provider's settings.
pub open spec fn provider_record(
    id: u64,
    name: Seq<char>,
    c: ProviderConfigView,
    uri: Seq<char>,
) -> ItemView {
    ItemView::empty().numbered(id).with_str("name"@, name).with_str(
        "client_id"@,
        text::trimmed(c.client_id),
    ).with_str("client_secret"@, text::trimmed(c.client_secret)).with_str(
        "team_id"@,
        text::trimmed(c.team_id),
    ).with_str("key_id"@, text::trimmed(c.key_id)).with_str(
        "private_key"@,
        text::trimmed(c.private_key),
    ).with_str("redirect_uri"@, uri)
}

fn record_of_provider(id: u64, name: &str, c: &ProviderConfig, uri: &str) -> (r: Item)
    ensures
        r@ == provider_record(id, name@, c@, uri@),
{
    let mut itm = Item::new();
    itm.id = id;
    itm.set_str("name", name);
    itm.set_str("client_id", trim(c.client_id.as_str()).as_str());
    itm.set_str("client_secret", trim(c.client_secret.as_str()).as_str());
    itm.set_str("team_id", trim(c.team_id.as_str()).as_str());
    itm.set_str("key_id", trim(c.key_id.as_str()).as_str());
    itm.set_str("private_key", trim(c.private_key.as_str()).as_str());
    itm.set_str("redirect_uri", uri);
    itm
}

/// The record that stores the directory's settings.
pub open spec fn directory_record(id: u64, c: LdapConfigView) -> ItemView {
    ItemView::empty().numbered(id).with_str("name"@, LDAP_SECRET@).with_str(
        "url"@,
        text::trimmed(c.url),
    ).with_str("bind_dn"@, text::trimmed(c.bind_dn)).with_str(
        "bind_password"@,
        text::trimmed(c.bind_password),
    ).with_str("base_dn"@, text::trimmed(c.base_dn)).with_str(
        "user_filter"@,
        text::trimmed(c.user_filter),
    ).with_str("user_dn_template"@, text::trimmed(c.user_dn_template)).with_str(
        "email_attribute"@,
        text::trimmed(c.email_attribute),
    ).with_str("name_attribute"@, text::trimmed(c.name_attribute)).with_bool(
        "allow_plaintext"@,
        c.allow_plaintext,
    )
}

fn record_of_directory(id: u64, c: &LdapConfig) -> (r: Item)
    ensures
        r@ == directory_record(id, c@),
{
    let mut itm = Item::new();
    itm.id = id;
    itm.set_str("name", LDAP_SECRET);
    itm.set_str("url", trim(c.url.as_str()).as_str());
    itm.set_str("bind_dn", trim(c.bind_dn.as_str()).as_str());
    itm.set_str("bind_password", trim(c.bind_password.as_str()).as_str());
    itm.set_str("base_dn", trim(c.base_dn.as_str()).as_str());
    itm.set_str("user_filter", trim(c.user_filter.as_str()).as_str());
    itm.set_str("user_dn_template", trim(c.user_dn_template.as_str()).as_str());
    itm.set_str("email_attribute", trim(c.email_attribute.as_str()).as_str());
    itm.set_str("name_attribute", trim(c.name_attribute.as_str()).as_str());
    itm.set_bool("allow_plaintext", c.allow_plaintext);
    itm
}

/// What a store holds, where there is one.
pub open spec fn held(store: Option<SecretStore>) -> Option<SecretsView> {
    match store {
        Some(s) => Some(s@),
        None => None,
    }
}

/// Whether a store, where there is one, is a valid one.
pub open spec fn sound(store: Option<SecretStore>) -> bool {
    store is Some ==> store->Some_0@.valid()
}

/// An entry by name, where there is a store that has it.
pub open spec fn entry_in(store: Option<SecretStore>, name: Seq<char>) -> Option<ItemView> {
    match store {
        Some(s) => entry(s@, name),
        None => None,
    }
}

/// An entry by name, where there is a store that has it.
pub fn found_in(store: &Option<SecretStore>, name: &str) -> (r: Option<Item>)
    requires
        sound(*store),
    ensures
        match r {
            Some(v) => entry_in(*store, name@) == Some(v@),
            None => entry_in(*store, name@) is None,
        },
{
    match store {
        Some(s) => s.get_by_name(name),
        None => None,
    }
}

fn id_in(found: &Option<Item>) -> (r: u64)
    ensures
        r == (match found {
            Some(v) => v@.id,
            None => u64::MAX,
        }),
{
    match found {
        Some(v) => v.id,
        None => u64::MAX,
    }
}

/// Whether an answer says that something did not work, and why.
pub open spec fn fails(r: ProcessResult, why: Seq<char>) -> bool {
    !r.succeeded && r.error@ == why && r.data@ == Map::<Seq<char>, Seq<char>>::empty()
}

/// Whether an answer says that something worked, and nothing more.
pub open spec fn works(r: ProcessResult) -> bool {
    r.succeeded && r.error@.len() == 0 && r.data@ == Map::<Seq<char>, Seq<char>>::empty()
}

/// What the store says of a record that it will not take.
pub open spec fn store_says(s: SecretsView, record: ItemView) -> Seq<char> {
    match s.refusal(record, true) {
        Some(secrets::ErrorKind::AlreadyExists) => {
            let n = secrets::name_of(s.stored(record, true));
            "secret name '"@ + n + "' already in use by id "@ + text::decimal(s.names[n] as nat)
        },
        _ => "secret item must have a non-empty strs[\"name\"]"@,
    }
}

/// What storing a record does, and what is answered.
pub open spec fn stored_or_told(
    was: Option<SecretStore>,
    now: Option<SecretStore>,
    record: ItemView,
    r: ProcessResult,
) -> bool {
    match was {
        None => fails(r, "The secret store is not available."@) && now is None,
        Some(s) => now is Some && if s@.refusal(record, true) is None {
            works(r) && now->Some_0@ == s@.after_set(record, true)
        } else {
            fails(r, "The configuration could not be stored: "@ + store_says(s@, record))
                && now->Some_0@ == s@
        },
    }
}

fn put(store: &mut Option<SecretStore>, record: &Item) -> (r: ProcessResult)
    requires
        sound(*old(store)),
    ensures
        sound(*final(store)),
        stored_or_told(*old(store), *final(store), record@, r),
{
    proof {
        reveal_strlit("");
    }
    match store {
        Some(s) => match s.set(record, true) {
            Ok(_) => ProcessResult::plain(true, ""),
            Err(e) => ProcessResult::plain(
                false,
                cat("The configuration could not be stored: ", e.message.as_str()).as_str(),
            ),
        },
        None => ProcessResult::plain(false, "The secret store is not available."),
    }
}

/// The redirect URI that a form leaves a provider with.
pub open spec fn uri_after(u: ConfigUpdate, stored: Option<ItemView>) -> Seq<char> {
    shown_field(u.redirect_uri, set_redirect_uri(stored))
}

/// The settings that a form would leave a provider with, and the redirect URI:
/// what has to be found usable before it is stored.
pub fn provider_after(stored: Option<&Item>, update: &ConfigUpdate) -> (r: (ProviderConfig, String))
    ensures
        r.0@ == provider_folded(provider_settings(seen(stored)), *update),
        r.1@ == uri_after(*update, seen(stored)),
{
    (
        apply_update(&provider_settings_of(stored), update),
        plain(&update.redirect_uri, stored_redirect_uri(stored).as_str()),
    )
}

/// The settings that a form would leave the directory with: what has to be
/// found usable before it is stored.
pub fn directory_after(stored: Option<&Item>, update: &ConfigUpdate) -> (r: LdapConfig)
    ensures
        r@ == directory_folded(directory_settings(seen(stored)), *update),
{
    apply_ldap_update(&directory_settings_of(stored), update)
}

/// What storing a provider's settings does, and what is answered.
pub open spec fn provider_saved(
    was: Option<SecretStore>,
    now: Option<SecretStore>,
    provider: Provider,
    name: Seq<char>,
    u: ConfigUpdate,
    problem: Option<&str>,
    uri_usable: bool,
    r: ProcessResult,
) -> bool {
    let stored = entry_in(was, name);
    let uri = uri_after(u, stored);
    if problem is Some {
        fails(r, provider.title() + " cannot be used yet: "@ + problem->Some_0@) && held(now)
            == held(was)
    } else if uri.len() > 0 && !uri_usable {
        fails(
            r,
            "The redirect URI has to be a full address, starting with http:// or https://."@,
        ) && held(now) == held(was)
    } else {
        stored_or_told(
            was,
            now,
            provider_record(
                match stored {
                    Some(v) => v.id,
                    None => u64::MAX,
                },
                name,
                provider_folded(provider_settings(stored), u),
                uri,
            ),
            r,
        )
    }
}

/// What storing the directory's settings does, and what is answered.
pub open spec fn directory_saved(
    was: Option<SecretStore>,
    now: Option<SecretStore>,
    u: ConfigUpdate,
    problem: Option<&str>,
    r: ProcessResult,
) -> bool {
    let stored = entry_in(was, LDAP_SECRET@);
    if problem is Some {
        fails(r, "The directory cannot be used yet: "@ + problem->Some_0@) && held(now) == held(was)
    } else {
        stored_or_told(
            was,
            now,
            directory_record(
                match stored {
                    Some(v) => v.id,
                    None => u64::MAX,
                },
                directory_folded(directory_settings(stored), u),
            ),
            r,
        )
    }
}

/// Stores a provider's settings. `problem` is what is wrong with the settings
/// that the form leaves behind, where something is, and `uri_usable` says
/// whether the redirect URI that it leaves behind can be one.
pub fn save_provider(
    store: &mut Option<SecretStore>,
    provider: Provider,
    secret_name: &str,
    update: &ConfigUpdate,
    problem: Option<&str>,
    uri_usable: bool,
) -> (r: ProcessResult)
    requires
        sound(*old(store)),
    ensures
        sound(*final(store)),
        provider_saved(
            *old(store),
            *final(store),
            provider,
            secret_name@,
            *update,
            problem,
            uri_usable,
            r,
        ),
{
    let stored = found_in(store, secret_name);
    let (merged, uri) = provider_after(stored.as_ref(), update);
    match problem {
        Some(p) => {
            return ProcessResult::plain(
                false,
                cat3(provider.display_name(), " cannot be used yet: ", p).as_str(),
            );
        },
        None => {},
    }
    if !uri.as_str().is_empty() && !uri_usable {
        return ProcessResult::plain(
            false,
            "The redirect URI has to be a full address, starting with http:// or https://.",
        );
    }
    let record = record_of_provider(id_in(&stored), secret_name, &merged, uri.as_str());
    put(store, &record)
}

/// Stores the directory's settings. `problem` is what is wrong with the
/// settings that the form leaves behind, where something is.
pub fn save_ldap(
    store: &mut Option<SecretStore>,
    update: &ConfigUpdate,
    problem: Option<&str>,
) -> (r: ProcessResult)
    requires
        sound(*old(store)),
    ensures
        sound(*final(store)),
        directory_saved(*old(store), *final(store), *update, problem, r),
{
    let stored = found_in(store, LDAP_SECRET);
    let merged = directory_after(stored.as_ref(), update);
    match problem {
        Some(p) => {
            return ProcessResult::plain(
                false,
                cat("The directory cannot be used yet: ", p).as_str(),
            );
        },
        None => {},
    }
    let record = record_of_directory(id_in(&stored), &merged);
    put(store, &record)
}

/// Stores the settings that a form submits. `secret_name` is the name of the
/// entry of the provider that it is for.
pub fn auth_config_save(
    store: &mut Option<SecretStore>,
    secret_name: &str,
    update: &ConfigUpdate,
    problem: Option<&str>,
    uri_usable: bool,
) -> (r: ProcessResult)
    requires
        sound(*old(store)),
    ensures
        sound(*final(store)),
        match way_named(update.provider@) {
            None => fails(r, "There is no such provider."@) && held(*final(store)) == held(
                *old(store),
            ),
            Some(Way::Directory) => directory_saved(
                *old(store),
                *final(store),
                *update,
                problem,
                r,
            ),
            Some(Way::By(provider)) => provider_saved(
                *old(store),
                *final(store),
                provider,
                secret_name@,
                *update,
                problem,
                uri_usable,
                r,
            ),
        },
{
    match way_of(update.provider.as_str()) {
        None => ProcessResult::plain(false, "There is no such provider."),
        Some(Way::Directory) => save_ldap(store, update, problem),
        Some(Way::By(provider)) => save_provider(
            store,
            provider,
            secret_name,
            update,
            problem,
            uri_usable,
        ),
    }
}

/// Removes the settings of a way in, which is also how it is switched off.
/// `secret_name` is the name of the entry of the provider that was named.
pub fn auth_config_forget(
    store: &mut Option<SecretStore>,
    provider: &str,
    secret_name: &str,
) -> (r: ProcessResult)
    requires
        sound(*old(store)),
    ensures
        sound(*final(store)),
        match way_named(provider@) {
            None => fails(r, "There is no such provider."@) && held(*final(store)) == held(
                *old(store),
            ),
            Some(way) => {
                let name = if way == Way::Directory {
                    LDAP_SECRET@
                } else {
                    secret_name@
                };
                match *old(store) {
                    None => fails(r, "The secret store is not available."@) && *final(store)
                        is None,
                    Some(s) => {
                        &&& works(r)
                        &&& *final(store) is Some
                        &&& final(store)->Some_0@ == if s@.names.contains_key(name) {
                            s@.after_del(s@.names[name])
                        } else {
                            s@
                        }
                    },
                }
            },
        },
{
    proof {
        reveal_strlit("");
    }
    let name = match way_of(provider) {
        None => {
            return ProcessResult::plain(false, "There is no such provider.");
        },
        Some(Way::Directory) => LDAP_SECRET,
        Some(Way::By(_)) => secret_name,
    };
    match store {
        None => ProcessResult::plain(false, "The secret store is not available."),
        Some(s) => {
            match s.get_by_name(name) {
                Some(i) => {
                    s.del(i.id);
                },
                None => {},
            }
            ProcessResult::plain(true, "")
        },
    }
}

/// Settings under a name that is not empty are always stored: the entry of
/// that name is replaced, or a new one is made.
pub proof fn settings_are_always_stored(s: SecretsView, record: ItemView, name: Seq<char>)
    requires
        s.valid(),
        name.len() > 0,
        record.strs.contains_key("name"@),
        record.strs["name"@] == name,
        record.id == id_of(s, name),
    ensures
        s.refusal(record, true) is None,
{
    reveal_strlit("name");
    reveal_strlit("secret");
    assert(!secrets::secret_key("name"@)) by {
        if "secret"@.is_prefix_of("name"@) {
            assert("name"@.len() >= "secret"@.len());
        }
    }
    let v = s.laid(record, true);
    assert(v.strs.contains_key("name"@) && v.strs["name"@] == name);
    assert(secrets::name_of(s.stored(record, true)) == name);
}

/// A record that was stored under a name is found under it, field by field, but
/// for placeholders.
proof fn field_read_back(s: SecretsView, record: ItemView, name: Seq<char>, k: Seq<char>)
    requires
        s.valid(),
        name.len() > 0,
        record.strs.contains_key("name"@),
        record.strs["name"@] == name,
        record.id == id_of(s, name),
        record.strs.contains_key(k),
        !secrets::secret_key(k),
    ensures
        entry(s.after_set(record, true), name) == Some(s.stored(record, true)),
        s.stored(record, true).str(k, Seq::empty()) == record.strs[k],
{
    settings_are_always_stored(s, record, name);
    reveal_strlit("name");
    reveal_strlit("secret");
    assert(!secrets::secret_key("name"@)) by {
        if "secret"@.is_prefix_of("name"@) {
            assert("name"@.len() >= "secret"@.len());
        }
    }
    let v = s.laid(record, true);
    assert(v.strs.contains_key(k) && v.strs[k] == record.strs[k]);
    assert(v.strs.contains_key("name"@) && v.strs["name"@] == name);
}

/// Provider settings that were stored are what the next sign-in is asked with,
/// without white space around them.
pub proof fn provider_settings_are_read_back(
    s: SecretsView,
    name: Seq<char>,
    c: ProviderConfigView,
    uri: Seq<char>,
)
    requires
        s.valid(),
        name.len() > 0,
    ensures
        ({
            let after = s.after_set(provider_record(id_of(s, name), name, c, uri), true);
            let found = provider_settings(entry(after, name));
            &&& found.client_id == text::trimmed(c.client_id)
            &&& found.client_secret == text::trimmed(c.client_secret)
            &&& found.team_id == text::trimmed(c.team_id)
            &&& found.key_id == text::trimmed(c.key_id)
            &&& found.private_key == text::trimmed(c.private_key)
            &&& set_redirect_uri(entry(after, name)) == uri
        }),
{
    let record = provider_record(id_of(s, name), name, c, uri);
    reveal_strlit("name");
    reveal_strlit("client_id");
    reveal_strlit("client_secret");
    reveal_strlit("team_id");
    reveal_strlit("key_id");
    reveal_strlit("private_key");
    reveal_strlit("redirect_uri");
    reveal_strlit("secret");
    assert("name"@.len() == 4 && "client_id"@.len() == 9 && "client_secret"@.len() == 13);
    assert("team_id"@.len() == 7 && "key_id"@.len() == 6 && "private_key"@.len() == 11);
    assert("redirect_uri"@.len() == 12);
    not_secret("client_id"@, 0);
    not_secret("client_secret"@, 0);
    not_secret("team_id"@, 0);
    not_secret("key_id"@, 0);
    not_secret("private_key"@, 0);
    not_secret("redirect_uri"@, 0);
    field_read_back(s, record, name, "client_id"@);
    field_read_back(s, record, name, "client_secret"@);
    field_read_back(s, record, name, "team_id"@);
    field_read_back(s, record, name, "key_id"@);
    field_read_back(s, record, name, "private_key"@);
    field_read_back(s, record, name, "redirect_uri"@);
}

proof fn not_secret(k: Seq<char>, i: int)
    requires
        0 <= i < 6,
        k.len() > i ==> k[i] != "secret"@[i],
    ensures
        !secrets::secret_key(k),
{
    reveal_strlit("secret");
    if "secret"@.is_prefix_of(k) {
        assert(k.subrange(0, 6)[i] == k[i]);
    }
}

/// Directory settings that were stored are what the next sign-in is asked with,
/// without white space around them.
pub proof fn directory_settings_are_read_back(s: SecretsView, c: LdapConfigView)
    requires
        s.valid(),
    ensures
        ({
            let after = s.after_set(directory_record(id_of(s, LDAP_SECRET@), c), true);
            let found = directory_settings(entry(after, LDAP_SECRET@));
            &&& found.url == text::trimmed(c.url)
            &&& found.bind_dn == text::trimmed(c.bind_dn)
            &&& found.bind_password == text::trimmed(c.bind_password)
            &&& found.base_dn == text::trimmed(c.base_dn)
            &&& found.user_filter == text::trimmed(c.user_filter)
            &&& found.user_dn_template == text::trimmed(c.user_dn_template)
            &&& found.email_attribute == text::trimmed(c.email_attribute)
            &&& found.name_attribute == text::trimmed(c.name_attribute)
            &&& found.allow_plaintext == c.allow_plaintext
        }),
{
    let record = directory_record(id_of(s, LDAP_SECRET@), c);
    let name = LDAP_SECRET@;
    reveal_strlit("ldap");
    reveal_strlit("secret");
    reveal_strlit("name");
    reveal_strlit("url");
    reveal_strlit("bind_dn");
    reveal_strlit("bind_password");
    reveal_strlit("base_dn");
    reveal_strlit("user_filter");
    reveal_strlit("user_dn_template");
    reveal_strlit("email_attribute");
    reveal_strlit("name_attribute");
    assert("name"@.len() == 4 && "url"@.len() == 3 && "bind_dn"@.len() == 7);
    assert("bind_password"@.len() == 13 && "base_dn"@.len() == 7 && "user_filter"@.len() == 11);
    assert("user_dn_template"@.len() == 16 && "email_attribute"@.len() == 15);
    assert("name_attribute"@.len() == 14);
    assert("bind_dn"@[1] != "base_dn"@[1]);
    not_secret("url"@, 0);
    not_secret("bind_dn"@, 0);
    not_secret("bind_password"@, 0);
    not_secret("base_dn"@, 0);
    not_secret("user_filter"@, 0);
    not_secret("user_dn_template"@, 0);
    not_secret("email_attribute"@, 0);
    not_secret("name_attribute"@, 0);
    field_read_back(s, record, name, "url"@);
    field_read_back(s, record, name, "bind_dn"@);
    field_read_back(s, record, name, "bind_password"@);
    field_read_back(s, record, name, "base_dn"@);
    field_read_back(s, record, name, "user_filter"@);
    field_read_back(s, record, name, "user_dn_template"@);
    field_read_back(s, record, name, "email_attribute"@);
    field_read_back(s, record, name, "name_attribute"@);
}

/// What is typed into a form wins, without white space around it; what is not on the
/// form stays. A field on the screen can be emptied, a secret cannot.
pub proof fn what_a_form_changes(typed: String, existing: Seq<char>)
    ensures
        shown_field(Some(typed), existing) == text::trimmed(typed@),
        shown_field(None, existing) == existing,
        text::trimmed(typed@).len() > 0 ==> secret_field(Some(typed), existing) == text::trimmed(
            typed@,
        ),
        text::trimmed(typed@).len() == 0 ==> secret_field(Some(typed), existing) == existing,
        secret_field(None, existing) == existing,
{
}

/// Each field of a form goes to its own place of a provider's settings, and the
/// secrets stay where nothing was typed for them.
pub proof fn provider_forms_go_to_their_fields(current: ProviderConfigView, u: ConfigUpdate)
    ensures
        ({
            let after = provider_folded(current, u);
            &&& u.client_id matches Some(v) ==> after.client_id == text::trimmed(v@)
            &&& u.client_id is None ==> after.client_id == current.client_id
            &&& u.team_id matches Some(v) ==> after.team_id == text::trimmed(v@)
            &&& u.team_id is None ==> after.team_id == current.team_id
            &&& u.key_id matches Some(v) ==> after.key_id == text::trimmed(v@)
            &&& u.key_id is None ==> after.key_id == current.key_id
            &&& u.client_secret matches Some(v) ==> after.client_secret == (if text::trimmed(
                v@,
            ).len() > 0 {
                text::trimmed(v@)
            } else {
                current.client_secret
            })
            &&& u.private_key matches Some(v) ==> after.private_key == (if text::trimmed(v@).len()
                > 0 {
                text::trimmed(v@)
            } else {
                current.private_key
            })
        }),
{
}

/// Each field of a form goes to its own place of the directory's settings; the
/// password of the service account stays where nothing was typed for it, and whether
/// it may travel in the clear stays where the form does not say.
pub proof fn directory_forms_go_to_their_fields(current: LdapConfigView, u: ConfigUpdate)
    ensures
        ({
            let after = directory_folded(current, u);
            &&& u.url matches Some(v) ==> after.url == text::trimmed(v@)
            &&& u.url is None ==> after.url == current.url
            &&& u.bind_dn matches Some(v) ==> after.bind_dn == text::trimmed(v@)
            &&& u.bind_dn is None ==> after.bind_dn == current.bind_dn
            &&& u.base_dn matches Some(v) ==> after.base_dn == text::trimmed(v@)
            &&& u.base_dn is None ==> after.base_dn == current.base_dn
            &&& u.user_filter matches Some(v) ==> after.user_filter == text::trimmed(v@)
            &&& u.user_filter is None ==> after.user_filter == current.user_filter
            &&& u.user_dn_template matches Some(v) ==> after.user_dn_template == text::trimmed(v@)
            &&& u.user_dn_template is None ==> after.user_dn_template == current.user_dn_template
            &&& u.email_attribute matches Some(v) ==> after.email_attribute == text::trimmed(v@)
            &&& u.email_attribute is None ==> after.email_attribute == current.email_attribute
            &&& u.name_attribute matches Some(v) ==> after.name_attribute == text::trimmed(v@)
            &&& u.name_attribute is None ==> after.name_attribute == current.name_attribute
            &&& u.bind_password matches Some(v) ==> after.bind_password == (if text::trimmed(
                v@,
            ).len() > 0 {
                text::trimmed(v@)
            } else {
                current.bind_password
            })
            &&& u.allow_plaintext matches Some(b) ==> after.allow_plaintext == b
            &&& u.allow_plaintext is None ==> after.allow_plaintext == current.allow_plaintext
        }),
{
}

/// A way in goes by a word, white space around it aside; the directory has one of its
/// own.
pub proof fn which_words_are_ways_in(word: Seq<char>)
    ensures
        way_named(word) == Some(Way::Directory) <==> text::trimmed(word) == "ldap"@,
        way_named(word) == Some(Way::By(Provider::Google)) <==> text::trimmed(word) == "google"@,
        way_named(word) == Some(Way::By(Provider::Apple)) <==> text::trimmed(word) == "apple"@,
        text::trimmed(word) != "ldap"@ && text::trimmed(word) != "google"@ && text::trimmed(word)
            != "apple"@ ==> way_named(word) is None,
{
    reveal_strlit("ldap");
    reveal_strlit("google");
    reveal_strlit("apple");
    assert("ldap"@.len() != "google"@.len() && "ldap"@.len() != "apple"@.len());
    assert("google"@.len() != "apple"@.len());
}

/// A failure says why and changes no data, and a success says nothing.
pub proof fn what_answers_say(r: ProcessResult, why: Seq<char>)
    ensures
        fails(r, why) ==> !r.succeeded && r.error@ == why && r.data@.dom() == Set::<
            Seq<char>,
        >::empty(),
        works(r) ==> r.succeeded && r.error@.len() == 0 && r.data@.dom() == Set::<
            Seq<char>,
        >::empty(),
        !(fails(r, why) && works(r)),
{
}

/// Settings that cannot be used are not stored, and the operator is told what is wrong
/// with them; without a store nothing is.
pub proof fn unusable_settings_change_nothing(
    was: Option<SecretStore>,
    now: Option<SecretStore>,
    provider: Provider,
    name: Seq<char>,
    u: ConfigUpdate,
    problem: Option<&str>,
    uri_usable: bool,
    r: ProcessResult,
)
    requires
        provider_saved(was, now, provider, name, u, problem, uri_usable, r),
    ensures
        problem is Some ==> !r.succeeded && held(now) == held(was) && r.error@ == provider.title()
            + " cannot be used yet: "@ + problem->Some_0@,
        uri_after(u, entry_in(was, name)).len() > 0 && !uri_usable ==> !r.succeeded && held(now)
            == held(was),
        was is None ==> !r.succeeded && now is None,
        r.succeeded ==> was is Some && now is Some && problem is None,
{
}

/// The same of the directory.
pub proof fn an_unusable_directory_changes_nothing(
    was: Option<SecretStore>,
    now: Option<SecretStore>,
    u: ConfigUpdate,
    problem: Option<&str>,
    r: ProcessResult,
)
    requires
        directory_saved(was, now, u, problem, r),
    ensures
        problem is Some ==> !r.succeeded && held(now) == held(was) && r.error@
            == "The directory cannot be used yet: "@ + problem->Some_0@,
        was is None ==> !r.succeeded && now is None,
        r.succeeded ==> was is Some && now is Some && problem is None,
{
}

/// Settings that can be used are stored, under the name of the way in, and are what
/// the form leaves behind.
pub proof fn usable_settings_are_stored(
    was: SecretStore,
    now: Option<SecretStore>,
    provider: Provider,
    name: Seq<char>,
    u: ConfigUpdate,
    r: ProcessResult,
)
    requires
        was@.valid(),
        name.len() > 0,
        provider_saved(Some(was), now, provider, name, u, None, true, r),
    ensures
        r.succeeded,
        now is Some,
        ({
            let found = provider_settings(entry(now->Some_0@, name));
            let after = provider_folded(provider_settings(entry(was@, name)), u);
            &&& entry(now->Some_0@, name) is Some
            &&& found.client_id == text::trimmed(after.client_id)
            &&& found.client_secret == text::trimmed(after.client_secret)
            &&& found.team_id == text::trimmed(after.team_id)
            &&& found.key_id == text::trimmed(after.key_id)
            &&& found.private_key == text::trimmed(after.private_key)
        }),
{
    let stored = entry(was@, name);
    let c = provider_folded(provider_settings(stored), u);
    let uri = uri_after(u, stored);
    let record = provider_record(id_of(was@, name), name, c, uri);
    reveal_strlit("name");
    reveal_strlit("client_id");
    reveal_strlit("client_secret");
    reveal_strlit("team_id");
    reveal_strlit("key_id");
    reveal_strlit("private_key");
    reveal_strlit("redirect_uri");
    assert("name"@.len() == 4 && "client_id"@.len() == 9 && "client_secret"@.len() == 13
        && "team_id"@.len() == 7 && "key_id"@.len() == 6 && "private_key"@.len() == 11
        && "redirect_uri"@.len() == 12);
    settings_are_always_stored(was@, record, name);
    provider_settings_are_read_back(was@, name, c, uri);
    field_read_back_name(was@, record, name);
}

proof fn field_read_back_name(s: SecretsView, record: ItemView, name: Seq<char>)
    requires
        s.valid(),
        name.len() > 0,
        record.strs.contains_key("name"@),
        record.strs["name"@] == name,
        record.id == id_of(s, name),
    ensures
        entry(s.after_set(record, true), name) is Some,
{
    reveal_strlit("name");
    reveal_strlit("secret");
    not_secret("name"@, 0);
    field_read_back(s, record, name, "name"@);
}

/// An administrator sees whether a provider is configured, what is wrong with it, and
/// whether there is a secret, each under its own name.
pub proof fn what_is_shown_of_a_provider(
    provider: Provider,
    stored: Option<ItemView>,
    public_url: Seq<char>,
    found: Seq<char>,
)
    ensures
        ({
            let v = provider_shown(provider, stored, public_url, found);
            let cfg = provider_settings(stored);
            &&& v.get("id"@) == Some(JsonView::Text(provider.word()))
            &&& v.get("name"@) == Some(JsonView::Text(provider.title()))
            &&& v.get("configured"@) == Some(JsonView::Bool(stored is Some && found.len() == 0))
            &&& v.get("problem"@) == Some(
                JsonView::Text(
                    if stored is Some {
                        found
                    } else {
                        Seq::empty()
                    },
                ),
            )
            &&& v.get("client_id"@) == Some(JsonView::Text(cfg.client_id))
            &&& v.get("team_id"@) == Some(JsonView::Text(cfg.team_id))
            &&& v.get("key_id"@) == Some(JsonView::Text(cfg.key_id))
            &&& v.get("client_secret"@) is None
            &&& v.get("private_key"@) is None
            &&& provider == Provider::Google ==> v.get("has_secret"@) == Some(
                JsonView::Bool(text::trimmed(cfg.client_secret).len() > 0),
            )
            &&& provider == Provider::Apple ==> v.get("has_secret"@) == Some(
                JsonView::Bool(text::trimmed(cfg.private_key).len() > 0),
            )
        }),
{
    broadcast use crate::json::got_of_with;

    reveal_strlit("id");
    reveal_strlit("name");
    reveal_strlit("configured");
    reveal_strlit("problem");
    reveal_strlit("client_id");
    reveal_strlit("team_id");
    reveal_strlit("key_id");
    reveal_strlit("redirect_uri");
    reveal_strlit("effective_redirect_uri");
    reveal_strlit("has_secret");
    reveal_strlit("client_secret");
    reveal_strlit("private_key");
    assert("id"@.len() == 2 && "name"@.len() == 4 && "configured"@.len() == 10 && "problem"@.len()
        == 7 && "client_id"@.len() == 9 && "team_id"@.len() == 7 && "key_id"@.len() == 6
        && "redirect_uri"@.len() == 12 && "effective_redirect_uri"@.len() == 22
        && "has_secret"@.len() == 10 && "client_secret"@.len() == 13 && "private_key"@.len() == 11);
    assert("problem"@[0] != "team_id"@[0]);
    assert("configured"@[0] != "has_secret"@[0]);
}

/// An administrator sees whether the directory is configured, what is wrong with it, its
/// settings, and whether there is a password, each under its own name; the password
/// itself is not shown.
pub proof fn what_is_shown_of_the_directory(stored: Option<ItemView>, found: Seq<char>)
    ensures
        ({
            let v = directory_shown(stored, found);
            let cfg = directory_settings(stored);
            &&& v.get("configured"@) == Some(JsonView::Bool(stored is Some && found.len() == 0))
            &&& v.get("problem"@) == Some(
                JsonView::Text(
                    if stored is Some {
                        found
                    } else {
                        Seq::empty()
                    },
                ),
            )
            &&& v.get("url"@) == Some(JsonView::Text(cfg.url))
            &&& v.get("bind_dn"@) == Some(JsonView::Text(cfg.bind_dn))
            &&& v.get("base_dn"@) == Some(JsonView::Text(cfg.base_dn))
            &&& v.get("user_filter"@) == Some(JsonView::Text(cfg.user_filter))
            &&& v.get("user_dn_template"@) == Some(JsonView::Text(cfg.user_dn_template))
            &&& v.get("email_attribute"@) == Some(JsonView::Text(cfg.email_attribute))
            &&& v.get("name_attribute"@) == Some(JsonView::Text(cfg.name_attribute))
            &&& v.get("allow_plaintext"@) == Some(JsonView::Bool(cfg.allow_plaintext))
            &&& v.get("has_secret"@) == Some(
                JsonView::Bool(text::trimmed(cfg.bind_password).len() > 0),
            )
            &&& v.get("bind_password"@) is None
        }),
{
    broadcast use crate::json::got_of_with;

    reveal_strlit("configured");
    reveal_strlit("problem");
    reveal_strlit("url");
    reveal_strlit("bind_dn");
    reveal_strlit("base_dn");
    reveal_strlit("user_filter");
    reveal_strlit("user_dn_template");
    reveal_strlit("email_attribute");
    reveal_strlit("name_attribute");
    reveal_strlit("allow_plaintext");
    reveal_strlit("has_secret");
    reveal_strlit("bind_password");
    assert("configured"@.len() == 10 && "problem"@.len() == 7 && "url"@.len() == 3
        && "bind_dn"@.len() == 7 && "base_dn"@.len() == 7 && "user_filter"@.len() == 11
        && "user_dn_template"@.len() == 16 && "email_attribute"@.len() == 15
        && "name_attribute"@.len() == 14 && "allow_plaintext"@.len() == 15 && "has_secret"@.len()
        == 10 && "bind_password"@.len() == 13);
    assert("configured"@[0] != "has_secret"@[0]);
    assert("problem"@[0] != "bind_dn"@[0] && "problem"@[0] != "base_dn"@[0] && "bind_dn"@[1]
        != "base_dn"@[1]);
    assert("email_attribute"@[0] != "allow_plaintext"@[0]);
}

/// Settings that were never stored are blank, and nothing is let through in the clear.
pub proof fn what_was_never_set()
    ensures
        ({
            let c = directory_settings(None);
            c.url.len() == 0 && c.bind_dn.len() == 0 && c.bind_password.len() == 0
                && c.base_dn.len() == 0 && c.user_filter.len() == 0 && c.user_dn_template.len() == 0
                && c.email_attribute.len() == 0 && c.name_attribute.len() == 0
                && !c.allow_plaintext
        }),
        ({
            let c = provider_settings(None);
            c.client_id.len() == 0 && c.client_secret.len() == 0 && c.team_id.len() == 0
                && c.key_id.len() == 0 && c.private_key.len() == 0
        }),
{
}

/// A record that cannot be stored is told with the record that has its name, or as one
/// without a name.
pub proof fn what_is_said_of_a_refused_record(s: SecretsView, record: ItemView, name: Seq<char>)
    requires
        name == secrets::name_of(s.stored(record, true)),
    ensures
        s.refusal(record, true) == Some(secrets::ErrorKind::AlreadyExists) ==> ({
            let start = "secret name '"@ + name + "' already in use by id "@;
            &&& start.is_prefix_of(store_says(s, record))
            &&& store_says(s, record).skip(start.len() as int) == text::decimal(
                s.names[name] as nat,
            )
        }),
        s.refusal(record, true) == Some(secrets::ErrorKind::InvalidInput) ==> store_says(s, record)
            == "secret item must have a non-empty strs[\"name\"]"@,
{
    let start = "secret name '"@ + name + "' already in use by id "@;
    let rest = text::decimal(s.names[name] as nat);
    assert((start + rest).skip(start.len() as int) =~= rest);
}

/// An answer about storing tells what became of the store: it worked just where the
/// record is now in it, and otherwise the store is as it was.
pub proof fn what_storing_answers(
    was: SecretStore,
    now: Option<SecretStore>,
    record: ItemView,
    r: ProcessResult,
)
    requires
        stored_or_told(Some(was), now, record, r),
    ensures
        now is Some,
        r.succeeded <==> was@.refusal(record, true) is None,
        r.succeeded ==> now->Some_0@ == was@.after_set(record, true) && r.error@.len() == 0,
        !r.succeeded ==> now->Some_0@ == was@
            && "The configuration could not be stored: "@.is_prefix_of(r.error@),
        r.data@.dom().is_empty(),
{
    if !r.succeeded {
        let said = store_says(was@, record);
        assert(("The configuration could not be stored: "@ + said).take(
            "The configuration could not be stored: "@.len() as int,
        ) =~= "The configuration could not be stored: "@);
    }
}

/// Settings of the directory that can be used are stored, and are what the form leaves
/// behind of those that were stored before.
pub proof fn a_usable_directory_is_stored(
    was: SecretStore,
    now: Option<SecretStore>,
    u: ConfigUpdate,
    r: ProcessResult,
)
    requires
        was@.valid(),
        directory_saved(Some(was), now, u, None, r),
    ensures
        r.succeeded,
        now is Some,
        ({
            let found = directory_settings(entry(now->Some_0@, "ldap"@));
            let after = directory_folded(directory_settings(entry(was@, "ldap"@)), u);
            &&& found.url == text::trimmed(after.url)
            &&& found.bind_dn == text::trimmed(after.bind_dn)
            &&& found.bind_password == text::trimmed(after.bind_password)
            &&& found.base_dn == text::trimmed(after.base_dn)
            &&& found.user_filter == text::trimmed(after.user_filter)
            &&& found.user_dn_template == text::trimmed(after.user_dn_template)
            &&& found.email_attribute == text::trimmed(after.email_attribute)
            &&& found.name_attribute == text::trimmed(after.name_attribute)
            &&& found.allow_plaintext == after.allow_plaintext
        }),
{
    let c = directory_folded(directory_settings(entry(was@, LDAP_SECRET@)), u);
    let record = directory_record(id_of(was@, LDAP_SECRET@), c);
    reveal_strlit("ldap");
    reveal_strlit("name");
    reveal_strlit("url");
    reveal_strlit("bind_dn");
    reveal_strlit("bind_password");
    reveal_strlit("base_dn");
    reveal_strlit("user_filter");
    reveal_strlit("user_dn_template");
    reveal_strlit("email_attribute");
    reveal_strlit("name_attribute");
    assert("name"@.len() == 4 && "url"@.len() == 3 && "bind_dn"@.len() == 7
        && "bind_password"@.len() == 13 && "base_dn"@.len() == 7 && "user_filter"@.len() == 11
        && "user_dn_template"@.len() == 16 && "email_attribute"@.len() == 15
        && "name_attribute"@.len() == 14);
    settings_are_always_stored(was@, record, LDAP_SECRET@);
    directory_settings_are_read_back(was@, c);
}

/// The redirect address that a form leaves behind is stored as it is.
pub proof fn the_redirect_address_is_stored(
    was: SecretStore,
    now: Option<SecretStore>,
    provider: Provider,
    name: Seq<char>,
    u: ConfigUpdate,
    r: ProcessResult,
)
    requires
        was@.valid(),
        name.len() > 0,
        provider_saved(Some(was), now, provider, name, u, None, true, r),
    ensures
        now is Some,
        set_redirect_uri(entry(now->Some_0@, name)) == uri_after(u, entry(was@, name)),
{
    usable_settings_are_stored(was, now, provider, name, u, r);
    let stored = entry(was@, name);
    provider_settings_are_read_back(
        was@,
        name,
        provider_folded(provider_settings(stored), u),
        uri_after(u, stored),
    );
}

} // verus!
