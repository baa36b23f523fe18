//! Signing in with an identity provider.
//!
//! The browser is sent to the provider and comes back with a code. What has to
//! be kept in between is kept here, under the `state` parameter: each sign-in
//! in flight is spent at most once, and their number is bounded.
use crate::collections;
use crate::collections::StrMap;
use crate::item::{Item, ItemView};
use crate::json;
use crate::json::{Json, JsonView};
use crate::server::signin;
use crate::server::signin::{record_for, resolve_identity};
use crate::server::user_control;
use crate::server::user_control::{login_is_acceptable, session_generation};
use crate::text;
use crate::text::{begins_with, cat, cat3, cat4, has_char, owned, starts_with, trim, trim_end_char};
use crate::util::crypto;
use crate::util::crypto::{constant_time_same, random_token};
use crate::util::oidc::{Identity, Provider, ProviderConfig, ProviderConfigView};
use crate::util::query;
use crate::util::query::parse_query;
use vstd::prelude::*;

pub use crate::server::signin::{Refusal, Resolution};

verus! {

/// How long a started sign-in may take to come back, in seconds.
pub const FLOW_TTL_SECS: u64 = 600;

/// How many sign-ins may be in flight at once.
pub const MAX_FLOWS: usize = 512;

/// The cookie that ties a callback to the browser that started the sign-in.
pub const FLOW_COOKIE: &'static str = "isabelle-oauth";

// ---------------------------------------------------------------------------
// Sign-ins in flight
// ---------------------------------------------------------------------------

/// A sign-in that has been started and not yet come back.
pub struct PendingFlow {
    pub provider: Provider,
    /// Echoed in the identity token; proves that the token answers this request.
    pub nonce: String,
    pub verifier: String,
    /// Where to send the browser once it is signed in.
    pub next: String,
    /// Matched against the cookie, so that a callback delivered to somebody
    /// else's browser cannot sign them in.
    pub binding: String,
    pub started_at: u64,
}

/// What a sign-in in flight holds.
#[verifier::ext_equal]
pub struct FlowView {
    pub provider: Provider,
    pub nonce: Seq<char>,
    pub verifier: Seq<char>,
    pub next: Seq<char>,
    pub binding: Seq<char>,
    pub started_at: u64,
}

impl View for PendingFlow {
    type V = FlowView;

    open spec fn view(&self) -> FlowView {
        FlowView {
            provider: self.provider,
            nonce: self.nonce@,
            verifier: self.verifier@,
            next: self.next@,
            binding: self.binding@,
            started_at: self.started_at,
        }
    }
}

/// The sign-ins in flight, by their `state` parameter.
pub struct PendingFlows {
    map: StrMap<PendingFlow>,
}

impl View for PendingFlows {
    type V = Map<Seq<char>, FlowView>;

    closed spec fn view(&self) -> Map<Seq<char>, FlowView> {
        self.map@
    }
}

/// Whether a sign-in is still in time.
pub open spec fn in_time(f: FlowView, now: u64) -> bool {
    now - f.started_at < FLOW_TTL_SECS
}

/// The sign-ins that are still in time.
pub open spec fn live(m: Map<Seq<char>, FlowView>, now: u64) -> Map<Seq<char>, FlowView> {
    Map::new(|k: Seq<char>| m.contains_key(k) && in_time(m[k], now), |k: Seq<char>| m[k])
}

/// Whether `kept` is what is left of `m` to make room for one more: all of it
/// where there is room, else the newest, one fewer than the limit.
pub open spec fn made_room(m: Map<Seq<char>, FlowView>, kept: Map<Seq<char>, FlowView>) -> bool {
    &&& kept.dom().finite()
    &&& kept.submap_of(m)
    &&& if m.dom().len() < MAX_FLOWS {
        kept == m
    } else {
        kept.dom().len() == MAX_FLOWS - 1
    }
    &&& forall|gone: Seq<char>, left: Seq<char>|
        #![trigger m.contains_key(gone), kept.contains_key(left)]
        m.contains_key(gone) && !kept.contains_key(gone) && kept.contains_key(left)
            ==> m[gone].started_at <= kept[left].started_at
}

impl PendingFlows {
    /// No sign-ins in flight.
    pub fn new() -> (r: PendingFlows)
        ensures
            r@ == Map::<Seq<char>, FlowView>::empty(),
    {
        PendingFlows { map: StrMap::new() }
    }

    /// How many sign-ins are in flight.
    pub fn len(&self) -> (n: usize)
        ensures
            n == self@.dom().len(),
            self@.dom().finite(),
    {
        let n: usize = self.map.len();
        proof {
            collections::map_of_size(self.map.pairs());
        }
        n
    }

    /// Forgets the sign-ins that have taken too long.
    pub fn prune(&mut self, now: u64)
        ensures
            final(self)@ == live(old(self)@, now),
    {
        let ghost was = self@;
        let ghost all = self.map.pairs();
        let n: usize = self.map.len();
        let mut gone: Vec<String> = Vec::new();
        let mut i: usize = 0;
        while i < n
            invariant
                i <= n,
                n == all.len(),
                self.map.pairs() == all,
                self.map@ == was,
                collections::distinct_keys(all),
                forall|x: int|
                    0 <= x < gone@.len() ==> was.contains_key((#[trigger] gone@[x])@) && !in_time(
                        was[gone@[x]@],
                        now,
                    ),
                forall|j: int|
                    0 <= j < i && !in_time((#[trigger] all[j]).1, now) ==> text::views(
                        gone@,
                    ).contains(all[j].0),
            decreases n - i,
        {
            let started: u64 = self.map.value(i).started_at;
            proof {
                collections::map_of_has(all, i as int);
            }
            if now >= started && now - started >= FLOW_TTL_SECS {
                let ghost had = text::views(gone@);
                let ghost held = gone@;
                gone.push(self.map.key(i).clone());
                proof {
                    assert(text::views(gone@) =~= had.push(all[i as int].0));
                    assert(text::views(gone@)[had.len() as int] == all[i as int].0);
                    assert forall|j: int|
                        0 <= j < i && !in_time((#[trigger] all[j]).1, now) implies text::views(
                        gone@,
                    ).contains(all[j].0) by {
                        let x = choose|x: int| 0 <= x < had.len() && had[x] == all[j].0;
                        assert(text::views(gone@)[x] == all[j].0);
                    }
                    assert forall|x: int| 0 <= x < gone@.len() implies was.contains_key(
                        (#[trigger] gone@[x])@,
                    ) && !in_time(was[gone@[x]@], now) by {
                        if x < held.len() {
                            assert(gone@[x] == held[x]);
                        }
                    }
                }
            }
            i = i + 1;
        }
        self.map.remove_all(&gone);
        proof {
            let names = text::views(gone@);
            assert forall|k: Seq<char>| was.contains_key(k) implies (names.to_set().contains(k)
                <==> !in_time(was[k], now)) by {
                if !in_time(was[k], now) {
                    let j = collections::map_of_from(all, k);
                    assert(names.contains(all[j].0));
                }
                if names.contains(k) {
                    let x = choose|x: int| 0 <= x < names.len() && names[x] == k;
                    assert(gone@[x]@ == k);
                }
            }
            assert(self@ =~= live(was, now));
        }
    }

    /// The state of a sign-in than which none was started earlier.
    fn oldest(&self) -> (r: Option<String>)
        ensures
            match r {
                Some(k) => self@.contains_key(k@) && forall|o: Seq<char>| #[trigger]
                    self@.contains_key(o) ==> self@[k@].started_at <= self@[o].started_at,
                None => self@.dom().len() == 0,
            },
    {
        let n: usize = self.map.len();
        let ghost all = self.map.pairs();
        proof {
            collections::map_of_size(all);
        }
        if n == 0 {
            return None;
        }
        let mut best: usize = 0;
        let mut i: usize = 1;
        while i < n
            invariant
                1 <= i <= n,
                n == all.len(),
                all == self.map.pairs(),
                best < i,
                forall|j: int|
                    0 <= j < i ==> all[best as int].1.started_at <= (#[trigger] all[j]).1.started_at,
            decreases n - i,
        {
            if self.map.value(i).started_at < self.map.value(best).started_at {
                best = i;
            }
            i = i + 1;
        }
        proof {
            collections::map_of_has(all, best as int);
            assert forall|o: Seq<char>| #[trigger]
                self@.contains_key(o) implies self@[all[best as int].0].started_at
                <= self@[o].started_at by {
                let j = collections::map_of_from(all, o);
                assert(all[best as int].1.started_at <= all[j].1.started_at);
            }
        }
        Some(self.map.key(best).clone())
    }

    /// Puts a sign-in in flight. Where there is no room the oldest gives way.
    pub fn insert(&mut self, state: String, flow: PendingFlow, now: u64)
        ensures
            exists|kept: Map<Seq<char>, FlowView>| #[trigger]
                made_room(live(old(self)@, now), kept) && final(self)@ == kept.insert(
                    state@,
                    flow@,
                ),
            final(self)@.dom().len() <= MAX_FLOWS,
    {
        self.prune(now);
        let ghost all = self@;
        let mut n: usize = self.len();
        while n >= MAX_FLOWS
            invariant
                n == self@.dom().len(),
                self@.dom().finite(),
                all.dom().finite(),
                self@.submap_of(all),
                all.dom().len() < MAX_FLOWS ==> self@ == all,
                all.dom().len() >= MAX_FLOWS ==> n >= MAX_FLOWS - 1,
                forall|gone: Seq<char>, left: Seq<char>|
                    #![trigger all.contains_key(gone), self@.contains_key(left)]
                    all.contains_key(gone) && !self@.contains_key(gone) && self@.contains_key(left)
                        ==> all[gone].started_at <= self@[left].started_at,
            decreases n,
        {
            let ghost before = self@;
            match self.oldest() {
                Some(k) => {
                    self.map.remove(k.as_str());
                    proof {
                        assert(self@.dom() =~= before.dom().remove(k@));
                    }
                },
                None => {},
            }
            n = self.len();
        }
        let ghost kept = self@;
        self.map.insert(state, flow);
        proof {
            assert(made_room(all, kept));
            assert(self@.dom() =~= kept.dom().insert(state@));
        }
    }

    /// Takes a sign-in out. A state that has been spent, or has taken too long,
    /// finds nothing.
    pub fn take(&mut self, state: &str, now: u64) -> (r: Option<PendingFlow>)
        ensures
            final(self)@ == live(old(self)@, now).remove(state@),
            match r {
                Some(f) => old(self)@.contains_key(state@) && in_time(old(self)@[state@], now)
                    && f@ == old(self)@[state@],
                None => !(old(self)@.contains_key(state@) && in_time(old(self)@[state@], now)),
            },
    {
        self.prune(now);
        self.map.remove(state)
    }
}

/// A state is spent at most once: after it was taken it finds nothing, whenever
/// it is tried again.
pub proof fn spent_once(m: Map<Seq<char>, FlowView>, state: Seq<char>, now: u64, later: u64)
    ensures
        !live(live(m, now).remove(state), later).contains_key(state),
{
}

/// A sign-in that was just put in flight is found until its time is up, and not
/// after.
pub proof fn in_flight_for_its_time(
    kept: Map<Seq<char>, FlowView>,
    state: Seq<char>,
    flow: FlowView,
    now: u64,
)
    requires
        flow.started_at + FLOW_TTL_SECS <= u64::MAX,
    ensures
        live(kept.insert(state, flow), now).contains_key(state) <==> now < flow.started_at
            + FLOW_TTL_SECS,
{
}

/// Once out of time, a sign-in stays so.
pub proof fn expiry_is_final(f: FlowView, now: u64, later: u64)
    requires
        !in_time(f, now),
        now <= later,
    ensures
        !in_time(f, later),
{
}

/// Where there is room, starting a sign-in drops none that is in time.
pub proof fn room_drops_nothing(
    m: Map<Seq<char>, FlowView>,
    kept: Map<Seq<char>, FlowView>,
    state: Seq<char>,
)
    requires
        made_room(m, kept),
        m.dom().len() < MAX_FLOWS,
        m.contains_key(state),
    ensures
        kept.contains_key(state),
        kept[state] == m[state],
{
}

// ---------------------------------------------------------------------------
// Where the browser is sent
// ---------------------------------------------------------------------------

/// Whether a text is a path on this site: it begins with one slash, and holds
/// neither a backslash nor a control character.
pub open spec fn local_path(n: Seq<char>) -> bool {
    &&& text::begins(n, '/')
    &&& !(n.len() > 1 && n[1] == '/')
    &&& !n.contains('\\')
    &&& forall|i: int| 0 <= i < n.len() ==> !text::control_char(#[trigger] n[i])
}

/// A destination reduced to a path on this site.
pub open spec fn on_site(next: Seq<char>) -> Seq<char> {
    if local_path(text::trimmed(next)) {
        text::trimmed(next)
    } else {
        "/"@
    }
}

fn has_control(s: &str) -> (r: bool)
    ensures
        r == exists|i: int| 0 <= i < s@.len() && text::control_char(#[trigger] s@[i]),
{
    let cs = text::chars_of(s);
    let mut i: usize = 0;
    while i < cs.len()
        invariant
            i <= cs.len(),
            cs@ == s@,
            forall|j: int| 0 <= j < i ==> !text::control_char(#[trigger] s@[j]),
        decreases cs.len() - i,
    {
        if cs[i].is_control() {
            proof {
                assert(text::control_char(s@[i as int]));
            }
            return true;
        }
        i = i + 1;
    }
    false
}

/// Reduces a destination that a caller named to a path on this site.
pub fn safe_next(next: &str) -> (r: String)
    ensures
        r@ == on_site(next@),
{
    let n = trim(next);
    proof {
        reveal_strlit("//");
        reveal_strlit("/\\");
        let t = n@;
        if t.len() > 1 {
            assert("//"@.is_prefix_of(t) <==> t[0] == '/' && t[1] == '/') by {
                if t[0] == '/' && t[1] == '/' {
                    assert(t.subrange(0, 2) =~= "//"@);
                }
                if "//"@.is_prefix_of(t) {
                    assert(t.subrange(0, 2)[0] == "//"@[0]);
                    assert(t.subrange(0, 2)[1] == "//"@[1]);
                }
            }
        }
        if "/\\"@.is_prefix_of(t) {
            assert(t.subrange(0, 2)[1] == "/\\"@[1]);
            assert(t[1] == '\\');
        }
    }
    if begins_with(n.as_str(), '/') && !starts_with(n.as_str(), "//") && !starts_with(
        n.as_str(),
        "/\\",
    ) && !has_char(n.as_str(), '\\') && !has_control(n.as_str()) {
        n
    } else {
        owned("/")
    }
}

/// Wherever a caller asks to be sent, it is somewhere on this site.
pub proof fn destination_is_local(next: Seq<char>)
    ensures
        local_path(on_site(next)),
{
    reveal_strlit("/");
}

/// Reducing a destination twice is reducing it once.
pub proof fn destination_settles(next: Seq<char>)
    ensures
        on_site(on_site(next)) == on_site(next),
{
    reveal_strlit("/");
    destination_is_local(next);
    if local_path(text::trimmed(next)) {
        text::trimmed_twice(next);
    } else {
        text::trimmed_fixed("/"@);
    }
}

/// A path on this site, as an address the browser can be sent to.
pub open spec fn address(public_url: Seq<char>, path: Seq<char>) -> Seq<char> {
    text::without_trailing(public_url, '/') + on_site(path)
}

/// A path on this site, as an address the browser can be sent to.
pub fn site_url(public_url: &str, path: &str) -> (r: String)
    ensures
        r@ == address(public_url@, path@),
{
    cat(trim_end_char(public_url, '/').as_str(), safe_next(path).as_str())
}

/// Where a browser is sent back to, carrying why it did not work.
pub open spec fn refusal_address(public_url: Seq<char>, next: Seq<char>, why: Refusal) -> Seq<char> {
    let target = on_site(next);
    address(public_url, target) + (if target.contains('?') {
        "&"@
    } else {
        "?"@
    }) + "auth_error="@ + why.word()
}

/// Where a browser is sent back to, carrying why it did not work.
pub fn refuse(public_url: &str, next: &str, why: Refusal) -> (r: String)
    ensures
        r@ == refusal_address(public_url@, next@, why),
{
    let target = safe_next(next);
    let separator = if has_char(target.as_str(), '?') {
        "&"
    } else {
        "?"
    };
    cat4(site_url(public_url, target.as_str()).as_str(), separator, "auth_error=", why.slug())
}

/// Where the provider sends the browser back to: what the operator stored, or
/// the place where a stock deployment answers.
pub open spec fn callback_address(
    stored: Option<ItemView>,
    public_url: Seq<char>,
    provider: Provider,
) -> Seq<char> {
    let explicit = match stored {
        Some(item) => text::trimmed(item.str("redirect_uri"@, Seq::empty())),
        None => Seq::empty(),
    };
    if explicit.len() > 0 {
        explicit
    } else {
        text::without_trailing(public_url, '/') + "/api/auth/"@ + provider.word() + "/callback"@
    }
}

/// Where the provider sends the browser back to. `stored` is the secret that
/// configures the provider.
pub fn redirect_uri(stored: Option<&Item>, public_url: &str, provider: Provider) -> (r: String)
    ensures
        r@ == callback_address(
            match stored {
                Some(i) => Some(i@),
                None => None,
            },
            public_url@,
            provider,
        ),
{
    proof {
        reveal_strlit("");
        assert(""@ =~= Seq::<char>::empty());
    }
    match stored {
        Some(item) => {
            let explicit = trim(item.safe_str("redirect_uri", "").as_str());
            if !explicit.as_str().is_empty() {
                return explicit;
            }
        },
        None => {},
    }
    cat4(
        trim_end_char(public_url, '/').as_str(),
        "/api/auth/",
        provider.id(),
        "/callback",
    )
}

/// How the cookie of a sign-in is set: whether it is `Secure`, and whether it
/// is sent across sites.
pub fn flow_cookie(cookie_http_insecure: bool) -> (r: (bool, bool))
    ensures
        r == (!cookie_http_insecure, !cookie_http_insecure),
{
    (!cookie_http_insecure, !cookie_http_insecure)
}

// ---------------------------------------------------------------------------
// Who somebody is
// ---------------------------------------------------------------------------

/// The key under which a provider's subject is remembered.
pub open spec fn remembered_under(provider: Provider) -> Seq<char> {
    "oauth_"@ + provider.word() + "_subject"@
}

/// The key under which a provider's subject is remembered.
pub fn subject_key(provider: Provider) -> (r: String)
    ensures
        r@ == remembered_under(provider),
{
    cat3("oauth_", provider.id(), "_subject")
}

/// Each provider is remembered separately.
pub proof fn providers_are_remembered_apart()
    ensures
        remembered_under(Provider::Google) != remembered_under(Provider::Apple),
{
    reveal_strlit("oauth_");
    reveal_strlit("google");
    reveal_strlit("apple");
    assert(remembered_under(Provider::Google)[6] == 'g');
    assert(remembered_under(Provider::Apple)[6] == 'a');
}

/// Decides what an identity that a provider vouches for means here.
pub fn resolve(
    existing: Option<&Item>,
    identity: &Identity,
    provider: Provider,
    allow_self_registration: bool,
) -> (r: Resolution)
    ensures
        r == signin::resolved(
            match existing {
                Some(i) => Some(i@),
                None => None,
            },
            identity.email@,
            identity.email_verified,
            identity.subject@,
            remembered_under(provider),
            allow_self_registration,
        ),
{
    resolve_identity(
        existing,
        identity.email.as_str(),
        identity.email_verified,
        identity.subject.as_str(),
        subject_key(provider).as_str(),
        allow_self_registration,
    )
}

/// A provider's configuration, as a secret holds it.
pub open spec fn configuration(item: ItemView) -> ProviderConfigView {
    ProviderConfigView {
        client_id: item.str("client_id"@, Seq::empty()),
        client_secret: item.str("client_secret"@, Seq::empty()),
        team_id: item.str("team_id"@, Seq::empty()),
        key_id: item.str("key_id"@, Seq::empty()),
        private_key: item.str("private_key"@, Seq::empty()),
    }
}

/// A provider's configuration out of the secret that holds it. A provider
/// without one is not offered and cannot be started.
pub fn provider_config(secret: Option<&Item>) -> (r: Option<ProviderConfig>)
    ensures
        match secret {
            Some(item) => r is Some && r->Some_0@ == configuration(item@),
            None => r is None,
        },
{
    proof {
        reveal_strlit("");
        assert(""@ =~= Seq::<char>::empty());
    }
    match secret {
        Some(item) => Some(
            ProviderConfig {
                client_id: item.safe_str("client_id", ""),
                client_secret: item.safe_str("client_secret", ""),
                team_id: item.safe_str("team_id", ""),
                key_id: item.safe_str("key_id", ""),
                private_key: item.safe_str("private_key", ""),
            },
        ),
        None => None,
    }
}

// ---------------------------------------------------------------------------
// Starting
// ---------------------------------------------------------------------------

/// One provider as a login screen offers it.
pub open spec fn offer(provider: Provider) -> JsonView {
    JsonView::object().with("id"@, JsonView::Text(provider.word())).with(
        "name"@,
        JsonView::Text(provider.title()),
    )
}

fn offer_of(provider: Provider) -> (r: Json)
    ensures
        r@ == offer(provider),
{
    Json::object().with_text("id", provider.id()).with_text("name", provider.display_name())
}

/// The providers that this deployment can sign in with, for the login screen:
/// those that are configured and usable, and nothing about how.
pub fn auth_providers(google_usable: bool, apple_usable: bool) -> (r: Json)
    ensures
        r@ == JsonView::object().with(
            "providers"@,
            match (google_usable, apple_usable) {
                (true, true) => JsonView::array().and(offer(Provider::Google)).and(
                    offer(Provider::Apple),
                ),
                (true, false) => JsonView::array().and(offer(Provider::Google)),
                (false, true) => JsonView::array().and(offer(Provider::Apple)),
                (false, false) => JsonView::array(),
            },
        ),
{
    let mut out = Json::array();
    if google_usable {
        out = out.and(offer_of(Provider::Google));
    }
    if apple_usable {
        out = out.and(offer_of(Provider::Apple));
    }
    Json::object().with("providers", out)
}

/// The destination that a query names, given what reading the query gave.
pub open spec fn named_next(read: Option<JsonView>) -> Seq<char> {
    match read {
        Some(t) => t.at("next"@).text_or(Seq::empty()),
        None => Seq::empty(),
    }
}

/// Where a sign-in is to end, given what reading its query gave.
pub fn next_in(read: &Option<Json>) -> (r: String)
    ensures
        r@ == on_site(named_next(json::opt_tree(*read))),
{
    proof {
        reveal_strlit("");
        assert(""@ =~= Seq::<char>::empty());
    }
    match read {
        Some(j) => safe_next(j.text_at("next", "").as_str()),
        None => safe_next(""),
    }
}

/// Where a sign-in is to end, as the query asks for it.
pub fn next_of(query: &str) -> (r: String)
    ensures
        r@ == on_site(named_next(query::query_tree(query@))),
{
    next_in(&parse_query(query))
}

/// What starting a sign-in does.
pub enum Start {
    /// There is no such provider.
    NotFound,
    /// Send the browser back where it came from.
    Refuse(String, Refusal),
    /// Put this sign-in in flight under this state, and send the browser to
    /// the provider.
    Go(String, PendingFlow),
}

/// Whether a text can have been drawn by chance: 32 bytes in the URL-safe
/// alphabet. Which of them it is, is left unsaid.
pub open spec fn drawn(s: Seq<char>) -> bool {
    s.len() == 43 && forall|i: int| 0 <= i < s.len() ==> crypto::url_safe(#[trigger] s[i])
}

/// Starts a sign-in with the values that were drawn for it. The state travels in
/// addresses; the nonce comes back in the provider's token; the verifier proves to
/// the provider who started; the binding stays with the browser that did.
pub fn start_flow(
    provider: Provider,
    next: String,
    state: String,
    nonce: String,
    verifier: String,
    binding: String,
    now: u64,
) -> (r: Start)
    ensures
        r matches Start::Go(s, f) && s@ == state@ && f.provider == provider && f.next@ == next@
            && f.nonce@ == nonce@ && f.verifier@ == verifier@ && f.binding@ == binding@
            && f.started_at == now,
{
    Start::Go(state, PendingFlow { provider, nonce, verifier, next, binding, started_at: now })
}

/// Starts a sign-in. `usable` says whether the provider is configured and its
/// configuration can be used.
pub fn auth_start(provider_id: &str, query: &str, usable: bool, now: u64) -> (r: Start)
    ensures
        match Provider::named(provider_id@) {
            None => r is NotFound,
            Some(provider) => if !usable {
                r matches Start::Refuse(next, why) && next@ == on_site(
                    named_next(query::query_tree(query@)),
                ) && why == Refusal::Failed
            } else {
                r matches Start::Go(state, flow) && drawn(state@) && flow.provider == provider
                    && flow.next@ == on_site(named_next(query::query_tree(query@))) && drawn(
                    flow.nonce@,
                ) && drawn(flow.verifier@) && drawn(flow.binding@) && flow.started_at == now
            },
        },
{
    let provider = match Provider::from_id(provider_id) {
        Some(p) => p,
        None => {
            return Start::NotFound;
        },
    };
    let next = next_of(query);
    if !usable {
        return Start::Refuse(next, Refusal::Failed);
    }
    start_flow(
        provider,
        next,
        random_token(32),
        random_token(32),
        random_token(32),
        random_token(32),
        now,
    )
}

// ---------------------------------------------------------------------------
// Finishing
// ---------------------------------------------------------------------------

/// What a provider sends back, however it sends it.
pub struct Callback {
    pub code: String,
    pub state: String,
    pub error: String,
}

/// Whether what is under a name is a text, or there is nothing.
pub open spec fn plain_at(t: JsonView, k: Seq<char>) -> bool {
    t.at(k) is Text || t.at(k) is Null
}

/// Whether a callback holds what a query or a form says. One that nests anything
/// under a name of these says nothing at all.
pub open spec fn callback_reads(c: Callback, read: Option<JsonView>) -> bool {
    if read is Some && plain_at(read->Some_0, "code"@) && plain_at(read->Some_0, "state"@)
        && plain_at(read->Some_0, "error"@) {
        &&& c.code@ == read->Some_0.at("code"@).text_or(Seq::empty())
        &&& c.state@ == read->Some_0.at("state"@).text_or(Seq::empty())
        &&& c.error@ == read->Some_0.at("error"@).text_or(Seq::empty())
    } else {
        c.code@.len() == 0 && c.state@.len() == 0 && c.error@.len() == 0
    }
}

/// Whether what is under a name is a text, or there is nothing.
fn is_plain_at(j: &Json, k: &str) -> (r: bool)
    ensures
        r == plain_at(j@, k@),
{
    match j.get(k) {
        Some(Json::Text(_)) => true,
        Some(Json::Null) => true,
        Some(_) => false,
        None => true,
    }
}

/// What a provider sends back, given what reading the query or the form gave.
pub fn callback_in(read: &Option<Json>) -> (r: Callback)
    ensures
        callback_reads(r, json::opt_tree(*read)),
{
    proof {
        reveal_strlit("");
        assert(""@ =~= Seq::<char>::empty());
    }
    match read {
        Some(j) => if is_plain_at(j, "code") && is_plain_at(j, "state") && is_plain_at(j, "error") {
            Callback {
                code: j.text_at("code", ""),
                state: j.text_at("state", ""),
                error: j.text_at("error", ""),
            }
        } else {
            Callback { code: String::new(), state: String::new(), error: String::new() }
        },
        None => Callback { code: String::new(), state: String::new(), error: String::new() },
    }
}

/// What a provider sends back, out of a query or a form. What cannot be read is
/// empty.
pub fn callback_of(query: &str) -> (r: Callback)
    ensures
        callback_reads(r, query::query_tree(query@)),
{
    callback_in(&parse_query(query))
}

/// How far a callback gets before the provider is asked about its code.
pub enum Arrival {
    /// There is no such provider.
    NotFound,
    /// Send the browser to this path with this reason.
    Refuse(String, Refusal),
    /// Exchange the code for who this is.
    Exchange(PendingFlow),
}

/// What is refused of a callback, given the sign-in its state named, if any,
/// and the cookie that came with it.
pub open spec fn arrival_refusal(
    provider: Provider,
    flow: Option<FlowView>,
    cookie: Seq<char>,
    error: Seq<char>,
    code: Seq<char>,
    configured: bool,
) -> Option<(Seq<char>, Refusal)> {
    match flow {
        None => Some(("/"@, Refusal::Failed)),
        Some(f) => if f.provider != provider {
            Some(("/"@, Refusal::Failed))
        } else if cookie != f.binding {
            Some((f.next, Refusal::Failed))
        } else if error.len() > 0 {
            Some((f.next, Refusal::Denied))
        } else if code.len() == 0 || !configured {
            Some((f.next, Refusal::Failed))
        } else {
            None
        },
    }
}

/// The sign-in that a state names, where it is in flight and in time.
pub open spec fn flow_named(
    flows: Map<Seq<char>, FlowView>,
    state: Seq<char>,
    now: u64,
) -> Option<FlowView> {
    if flows.contains_key(state) && in_time(flows[state], now) {
        Some(flows[state])
    } else {
        None
    }
}

/// Receives a callback. The sign-in its state names is spent, whether or not
/// the rest of the callback is any good.
pub fn receive(
    flows: &mut PendingFlows,
    provider_id: &str,
    cb: &Callback,
    cookie: &str,
    configured: bool,
    now: u64,
) -> (r: Arrival)
    ensures
        match Provider::named(provider_id@) {
            None => r is NotFound && final(flows)@ == old(flows)@,
            Some(provider) => {
                &&& final(flows)@ == live(old(flows)@, now).remove(cb.state@)
                &&& match arrival_refusal(
                    provider,
                    flow_named(old(flows)@, cb.state@, now),
                    cookie@,
                    cb.error@,
                    cb.code@,
                    configured,
                ) {
                    Some((next, why)) => r matches Arrival::Refuse(n, w) && n@ == next && w == why,
                    None => r matches Arrival::Exchange(f) && flow_named(
                        old(flows)@,
                        cb.state@,
                        now,
                    ) == Some(f@),
                }
            },
        },
{
    let provider = match Provider::from_id(provider_id) {
        Some(p) => p,
        None => {
            return Arrival::NotFound;
        },
    };
    let flow = match flows.take(cb.state.as_str(), now) {
        Some(f) => f,
        None => {
            return Arrival::Refuse(owned("/"), Refusal::Failed);
        },
    };
    if flow.provider != provider {
        return Arrival::Refuse(owned("/"), Refusal::Failed);
    }
    if !constant_time_same(cookie, flow.binding.as_str()) {
        return Arrival::Refuse(flow.next, Refusal::Failed);
    }
    if !cb.error.as_str().is_empty() {
        return Arrival::Refuse(flow.next, Refusal::Denied);
    }
    if cb.code.as_str().is_empty() {
        return Arrival::Refuse(flow.next, Refusal::Failed);
    }
    if !configured {
        return Arrival::Refuse(flow.next, Refusal::Failed);
    }
    Arrival::Exchange(flow)
}

/// What becomes of a sign-in whose identity is known.
pub enum Settled {
    Refuse(Refusal),
    /// Merge this update into the account, and open a session.
    SignIn(Item),
    /// Store this new account, and open a session.
    Create(Item),
}

/// What a sign-in with a known identity comes to.
pub open spec fn settlement(
    existing: Option<ItemView>,
    identity: Identity,
    provider: Provider,
    allow_registration: bool,
) -> Resolution {
    let r = signin::resolved(
        existing,
        identity.email@,
        identity.email_verified,
        identity.subject@,
        remembered_under(provider),
        allow_registration,
    );
    if r == Resolution::Create && !user_control::acceptable(identity.email@) {
        Resolution::Refuse(Refusal::Failed)
    } else {
        r
    }
}

/// Settles a sign-in whose identity is known, given the account that the
/// address leads to and this deployment's internals.
pub fn finish(
    existing: Option<&Item>,
    identity: &Identity,
    provider: Provider,
    internals: &Item,
) -> (r: Settled)
    ensures
        ({
            let e = match existing {
                Some(i) => Some(i@),
                None => None,
            };
            let open = internals@.bool("allow_self_registration"@, true);
            let what = settlement(e, *identity, provider, open);
            let written = signin::record_written(
                what,
                identity.email@,
                identity.name@,
                identity.subject@,
                remembered_under(provider),
            );
            match what {
                Resolution::Refuse(why) => r matches Settled::Refuse(w) && w == why,
                Resolution::SignIn(_) => r matches Settled::SignIn(u) && written == Some(u@),
                Resolution::Create => r matches Settled::Create(u) && written == Some(u@),
            }
        }),
{
    let open = internals.safe_bool("allow_self_registration", true);
    let what = resolve(existing, identity, provider, open);
    let key = subject_key(provider);
    let written = record_for(
        &what,
        identity.email.as_str(),
        identity.name.as_str(),
        identity.subject.as_str(),
        key.as_str(),
    );
    match what {
        Resolution::Refuse(why) => Settled::Refuse(why),
        Resolution::SignIn(_) => match written {
            Some(u) => Settled::SignIn(u),
            None => Settled::Refuse(Refusal::Failed),
        },
        Resolution::Create => {
            if !login_is_acceptable(identity.email.as_str()) {
                return Settled::Refuse(Refusal::Failed);
            }
            match written {
                Some(u) => Settled::Create(u),
                None => Settled::Refuse(Refusal::Failed),
            }
        },
    }
}

/// The generation that a new session is stamped with: that of the record as it
/// stands after the write, 0 where there is none.
pub fn session_stamp(record: Option<&Item>) -> (r: u64)
    ensures
        r == match record {
            Some(u) => user_control::generation(u@),
            None => 0,
        },
{
    match record {
        Some(u) => session_generation(u),
        None => 0,
    }
}

/// A callback gets no further unless its state named a sign-in in flight with
/// that very provider, the browser is the one that started it, and the provider
/// sent a code rather than an error.
pub proof fn exchange_needs_everything(
    provider: Provider,
    flow: Option<FlowView>,
    cookie: Seq<char>,
    error: Seq<char>,
    code: Seq<char>,
    configured: bool,
)
    requires
        arrival_refusal(provider, flow, cookie, error, code, configured) is None,
    ensures
        flow is Some,
        flow->Some_0.provider == provider,
        flow->Some_0.binding == cookie,
        error.len() == 0,
        code.len() > 0,
        configured,
{
}

/// No sign-in ends in an account that is switched off, nor in one tied to
/// another identity at that provider.
pub proof fn settled_sign_in_is_owed(
    existing: Option<ItemView>,
    identity: Identity,
    provider: Provider,
    open: bool,
    id: u64,
)
    requires
        settlement(existing, identity, provider, open) == Resolution::SignIn(id),
    ensures
        existing is Some,
        existing->Some_0.id == id,
        identity.email_verified,
        existing->Some_0.bool("role_is_active"@, false),
        signin::same_address(existing->Some_0.str("email"@, Seq::empty()), identity.email@),
        existing->Some_0.str(remembered_under(provider), Seq::empty()).len() == 0
            || existing->Some_0.str(remembered_under(provider), Seq::empty()) == identity.subject@,
{
    signin::sign_in_needs_everything(
        existing,
        identity.email@,
        identity.email_verified,
        identity.subject@,
        remembered_under(provider),
        open,
        id,
    );
}

/// Wherever a caller asks to be sent, the browser stays on this site: what comes out
/// begins with one slash, and holds no backslash and no control character. What is
/// such a path already is kept.
pub proof fn a_browser_stays_on_this_site(next: Seq<char>, i: int)
    ensures
        on_site(next).len() > 0,
        on_site(next)[0] == '/',
        on_site(next).len() > 1 ==> on_site(next)[1] != '/',
        !on_site(next).contains('\\'),
        0 <= i < on_site(next).len() ==> on_site(next)[i] > '\u{1f}' && !('\u{7f}' <= on_site(
            next,
        )[i] <= '\u{9f}'),
        on_site(next) == text::trimmed(next) || on_site(next) == "/"@,
        text::trimmed(next) == next && next.len() > 0 && next[0] == '/' && (next.len() == 1
            || next[1] != '/') && !next.contains('\\') && (forall|j: int|
            0 <= j < next.len() ==> !text::control_char(#[trigger] next[j])) ==> on_site(next)
            == next,
{
    destination_is_local(next);
}

/// An address on this site is the site's own, without slashes at its end, and the
/// path.
pub proof fn addresses_join_once(public_url: Seq<char>, path: Seq<char>)
    ensures
        public_url.len() == 0 || public_url.last() != '/' ==> address(public_url, path)
            == public_url + on_site(path),
        address(public_url.push('/'), path) == address(public_url, path),
{
    assert(public_url.push('/').drop_last() =~= public_url);
}

/// A browser that is sent back carries the reason behind where it wanted to go: after
/// a question mark, or after an ampersand where there is one already.
pub proof fn refusals_are_carried(public_url: Seq<char>, next: Seq<char>, why: Refusal)
    ensures
        !on_site(next).contains('?') ==> refusal_address(public_url, next, why) == address(
            public_url,
            next,
        ) + "?auth_error="@ + why.word(),
        on_site(next).contains('?') ==> refusal_address(public_url, next, why) == address(
            public_url,
            next,
        ) + "&auth_error="@ + why.word(),
{
    destination_settles(next);
    reveal_strlit("&");
    reveal_strlit("?");
    reveal_strlit("auth_error=");
    reveal_strlit("?auth_error=");
    reveal_strlit("&auth_error=");
    let a = address(public_url, next);
    assert(a + "?"@ + "auth_error="@ + why.word() =~= a + "?auth_error="@ + why.word());
    assert(a + "&"@ + "auth_error="@ + why.word() =~= a + "&auth_error="@ + why.word());
}

/// The provider sends the browser back to what the operator set, where they set
/// anything, and else to this site's own callback for that provider.
pub proof fn where_providers_send_back(
    stored: ItemView,
    public_url: Seq<char>,
    provider: Provider,
)
    requires
        public_url.len() > 0,
        public_url.last() != '/',
    ensures
        ({
            let set = text::trimmed(stored.str("redirect_uri"@, Seq::empty()));
            let own = public_url + "/api/auth/"@ + provider.word() + "/callback"@;
            &&& set.len() > 0 ==> callback_address(Some(stored), public_url, provider) == set
            &&& set.len() == 0 ==> callback_address(Some(stored), public_url, provider) == own
            &&& callback_address(None, public_url, provider) == own
        }),
{
}

/// Each provider is remembered under a key of its own.
pub proof fn where_subjects_are_remembered()
    ensures
        remembered_under(Provider::Google) == "oauth_google_subject"@,
        remembered_under(Provider::Apple) == "oauth_apple_subject"@,
{
    reveal_strlit("oauth_");
    reveal_strlit("google");
    reveal_strlit("apple");
    reveal_strlit("_subject");
    reveal_strlit("oauth_google_subject");
    reveal_strlit("oauth_apple_subject");
    assert("oauth_"@ + "google"@ + "_subject"@ =~= "oauth_google_subject"@);
    assert("oauth_"@ + "apple"@ + "_subject"@ =~= "oauth_apple_subject"@);
}

/// A provider is asked with what its secret says, field by field; what the secret
/// does not say is empty.
pub proof fn providers_are_asked_as_configured(item: ItemView)
    ensures
        configuration(item).client_id == item.str("client_id"@, Seq::empty()),
        configuration(item).client_secret == item.str("client_secret"@, Seq::empty()),
        configuration(item).team_id == item.str("team_id"@, Seq::empty()),
        configuration(item).key_id == item.str("key_id"@, Seq::empty()),
        configuration(item).private_key == item.str("private_key"@, Seq::empty()),
{
}

/// A sign-in takes at most ten minutes.
pub proof fn sign_ins_have_ten_minutes(f: FlowView, now: u64)
    ensures
        in_time(f, now) <==> now < f.started_at + 600,
{
}

/// Pruning keeps what is in time, as it is, and nothing else.
pub proof fn pruning_keeps_what_is_in_time(m: Map<Seq<char>, FlowView>, state: Seq<char>, now: u64)
    ensures
        live(m, now).contains_key(state) <==> m.contains_key(state) && now < m[state].started_at
            + 600,
        live(m, now).contains_key(state) ==> live(m, now)[state] == m[state],
{
}

/// Room is made by dropping the oldest, and no more than are in the way: of what was
/// in flight as many stay as fit beside the new one.
pub proof fn room_is_made_by_the_oldest(
    m: Map<Seq<char>, FlowView>,
    kept: Map<Seq<char>, FlowView>,
    gone: Seq<char>,
    left: Seq<char>,
)
    requires
        made_room(m, kept),
    ensures
        m.dom().len() < 512 ==> kept == m,
        m.dom().len() >= 512 ==> kept.dom().len() == 511,
        kept.contains_key(left) ==> m.contains_key(left) && m[left] == kept[left],
        m.contains_key(gone) && !kept.contains_key(gone) && kept.contains_key(left)
            ==> m[gone].started_at <= m[left].started_at,
{
    if kept.contains_key(left) {
        assert(kept.dom().contains(left) && m.dom().contains(left));
        assert(kept[left] == m[left]);
        if m.contains_key(gone) && !kept.contains_key(gone) {
            assert(m[gone].started_at <= kept[left].started_at);
        }
    }
}

/// A callback reads what was sent under each name, and nothing where it cannot be
/// read.
pub proof fn what_a_callback_reads(c: Callback, t: JsonView)
    requires
        callback_reads(c, Some(t)),
        t.at("code"@) is Text,
        t.at("state"@) is Text,
    ensures
        t.at("error"@) is Null ==> c.code@ == t.at("code"@)->Text_0 && c.state@ == t.at(
            "state"@,
        )->Text_0 && c.error@.len() == 0,
        t.at("error"@) is Text ==> c.code@ == t.at("code"@)->Text_0 && c.state@ == t.at(
            "state"@,
        )->Text_0 && c.error@ == t.at("error"@)->Text_0,
        !(t.at("error"@) is Null) && !(t.at("error"@) is Text) ==> c.code@.len() == 0
            && c.state@.len() == 0 && c.error@.len() == 0,
{
}

/// A callback that cannot be read says nothing.
pub proof fn an_unreadable_callback_says_nothing(c: Callback)
    requires
        callback_reads(c, None),
    ensures
        c.code@.len() == 0,
        c.state@.len() == 0,
        c.error@.len() == 0,
{
}

/// A callback with everything it needs goes on. One whose state names no sign-in, or
/// another provider's, is sent home as failed; one from another browser is sent where
/// the sign-in was to end, as failed, whatever it says; and one that the provider
/// denied is told so.
pub proof fn what_becomes_of_a_callback(
    provider: Provider,
    f: FlowView,
    cookie: Seq<char>,
    error: Seq<char>,
    code: Seq<char>,
    configured: bool,
)
    ensures
        arrival_refusal(provider, None, cookie, error, code, configured) == Some(
            ("/"@, Refusal::Failed),
        ),
        f.provider != provider ==> arrival_refusal(
            provider,
            Some(f),
            cookie,
            error,
            code,
            configured,
        ) == Some(("/"@, Refusal::Failed)),
        f.provider == provider && cookie != f.binding ==> arrival_refusal(
            provider,
            Some(f),
            cookie,
            error,
            code,
            configured,
        ) == Some((f.next, Refusal::Failed)),
        f.provider == provider && cookie == f.binding && error.len() > 0 ==> arrival_refusal(
            provider,
            Some(f),
            cookie,
            error,
            code,
            configured,
        ) == Some((f.next, Refusal::Denied)),
        f.provider == provider && cookie == f.binding && error.len() == 0 ==> (arrival_refusal(
            provider,
            Some(f),
            cookie,
            error,
            code,
            configured,
        ) is None <==> code.len() > 0 && configured),
        f.provider == provider && cookie == f.binding && error.len() == 0 && !(code.len() > 0
            && configured) ==> arrival_refusal(provider, Some(f), cookie, error, code, configured)
            == Some((f.next, Refusal::Failed)),
{
}

/// A state names the sign-in that was put in flight under it, for ten minutes.
pub proof fn what_a_state_names(
    flows: Map<Seq<char>, FlowView>,
    state: Seq<char>,
    f: FlowView,
    now: u64,
)
    ensures
        flow_named(flows.insert(state, f), state, now) == (if now < f.started_at + 600 {
            Some(f)
        } else {
            None
        }),
        !flows.contains_key(state) ==> flow_named(flows, state, now) is None,
{
}

/// A known identity is settled as an identity of any source is, but that no account
/// is made for an address that could not be looked up afterwards.
pub proof fn accounts_are_made_for_usable_addresses(
    existing: Option<ItemView>,
    identity: Identity,
    provider: Provider,
    open: bool,
)
    ensures
        ({
            let r = settlement(existing, identity, provider, open);
            let any = signin::resolved(
                existing,
                identity.email@,
                identity.email_verified,
                identity.subject@,
                remembered_under(provider),
                open,
            );
            &&& r == Resolution::Create <==> existing is None && open && identity.email_verified
                && text::trimmed(identity.email@).len() > 0 && user_control::acceptable(
                identity.email@,
            )
            &&& existing is Some ==> r == any
            &&& any == Resolution::Create && !user_control::acceptable(identity.email@) ==> r
                == Resolution::Refuse(Refusal::Failed)
        }),
{
}

/// A query's destination is what it says under `next`, and nothing where it says
/// nothing.
pub proof fn what_destination_is_named(t: JsonView)
    ensures
        t.get("next"@) matches Some(JsonView::Text(n)) ==> named_next(Some(t)) == n,
        t.get("next"@) is None ==> named_next(Some(t)).len() == 0,
        named_next(None).len() == 0,
{
}

/// A login screen learns of a provider by what name it is called and shown, and nothing
/// else.
pub proof fn what_is_offered(provider: Provider, k: Seq<char>)
    ensures
        offer(provider).get("id"@) == Some(JsonView::Text(provider.word())),
        offer(provider).get("name"@) == Some(JsonView::Text(provider.title())),
        k != "id"@ && k != "name"@ ==> offer(provider).get(k) is None,
{
    broadcast use crate::json::got_of_with;

    reveal_strlit("id");
    reveal_strlit("name");
    assert("id"@.len() != "name"@.len());
}

/// What is drawn can stand in an address as it is, and holds 256 bits: 43 characters
/// of the 64 that are safe there.
pub proof fn what_can_be_drawn(s: Seq<char>, i: int)
    requires
        drawn(s),
    ensures
        s.len() * 6 >= 256 && (s.len() - 1) * 6 < 256,
        0 <= i < s.len() ==> ('A' <= s[i] && s[i] <= 'Z') || ('a' <= s[i] && s[i] <= 'z') || ('0'
            <= s[i] && s[i] <= '9') || s[i] == '-' || s[i] == '_',
{
}

} // verus!
