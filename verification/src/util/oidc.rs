//! Identity providers, as far as this deployment has to know them.
use crate::text::same;
use vstd::prelude::*;

verus! {

/// The identity providers that can be configured.
#[derive(Clone, Copy, Debug, PartialEq, Eq, Structural)]
pub enum Provider {
    Google,
    Apple,
}

impl Provider {
    /// The word that addresses use for a provider.
    pub open spec fn word(self) -> Seq<char> {
        match self {
            Provider::Google => "google"@,
            Provider::Apple => "apple"@,
        }
    }

    /// The word that addresses use for a provider.
    pub fn id(self) -> (r: &'static str)
        ensures
            r@ == self.word(),
    {
        match self {
            Provider::Google => "google",
            Provider::Apple => "apple",
        }
    }

    /// The name that people use for a provider.
    pub open spec fn title(self) -> Seq<char> {
        match self {
            Provider::Google => "Google"@,
            Provider::Apple => "Apple"@,
        }
    }

    /// The name that people use for a provider.
    pub fn display_name(self) -> (r: &'static str)
        ensures
            r@ == self.title(),
    {
        match self {
            Provider::Google => "Google",
            Provider::Apple => "Apple",
        }
    }

    /// The provider that a word stands for.
    pub open spec fn named(id: Seq<char>) -> Option<Provider> {
        if id == "google"@ {
            Some(Provider::Google)
        } else if id == "apple"@ {
            Some(Provider::Apple)
        } else {
            None
        }
    }

    /// The provider that a word stands for.
    pub fn from_id(id: &str) -> (r: Option<Provider>)
        ensures
            r == Provider::named(id@),
    {
        if same(id, "google") {
            Some(Provider::Google)
        } else if same(id, "apple") {
            Some(Provider::Apple)
        } else {
            None
        }
    }
}

/// A provider is found again under its own word.
pub proof fn provider_round_trip(p: Provider)
    ensures
        Provider::named(p.word()) == Some(p),
{
    reveal_strlit("google");
    reveal_strlit("apple");
    assert("google"@[0] != "apple"@[0]);
}

/// What a provider is asked with.
#[derive(Debug, PartialEq)]
pub struct ProviderConfig {
    pub client_id: String,
    pub client_secret: String,
    pub team_id: String,
    pub key_id: String,
    pub private_key: String,
}

/// What a provider is asked with, as texts.
#[verifier::ext_equal]
pub struct ProviderConfigView {
    pub client_id: Seq<char>,
    pub client_secret: Seq<char>,
    pub team_id: Seq<char>,
    pub key_id: Seq<char>,
    pub private_key: Seq<char>,
}

impl ProviderConfigView {
    /// The configuration in which nothing is set.
    pub open spec fn blank() -> ProviderConfigView {
        ProviderConfigView {
            client_id: Seq::empty(),
            client_secret: Seq::empty(),
            team_id: Seq::empty(),
            key_id: Seq::empty(),
            private_key: Seq::empty(),
        }
    }
}

impl View for ProviderConfig {
    type V = ProviderConfigView;

    open spec fn view(&self) -> ProviderConfigView {
        ProviderConfigView {
            client_id: self.client_id@,
            client_secret: self.client_secret@,
            team_id: self.team_id@,
            key_id: self.key_id@,
            private_key: self.private_key@,
        }
    }
}

impl ProviderConfig {
    /// The configuration in which nothing is set.
    pub fn blank() -> (r: ProviderConfig)
        ensures
            r@ == ProviderConfigView::blank(),
    {
        ProviderConfig {
            client_id: String::new(),
            client_secret: String::new(),
            team_id: String::new(),
            key_id: String::new(),
            private_key: String::new(),
        }
    }
}

/// Who a provider says somebody is.
pub struct Identity {
    /// The provider's own lasting name for the account.
    pub subject: String,
    pub email: String,
    /// Whether the provider vouches for the address.
    pub email_verified: bool,
    pub name: String,
}

/// A provider goes by one word and one name, and no other word is a provider.
pub proof fn providers_go_by_their_words(id: Seq<char>)
    ensures
        Provider::Google.word() == "google"@,
        Provider::Apple.word() == "apple"@,
        Provider::Google.title() == "Google"@,
        Provider::Apple.title() == "Apple"@,
        Provider::named(id) matches Some(p) ==> p.word() == id,
        id != "google"@ && id != "apple"@ ==> Provider::named(id) is None,
{
}

} // verus!
