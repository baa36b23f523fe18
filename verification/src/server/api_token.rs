//! API tokens: proving who you are without a browser.
//!
//! A token reads `mid_<id>_<secret>`. The id in front makes verifying one
//! lookup; only the hash of the secret is stored, so a token is shown once,
//! when it is made. A token belongs to one account and acts with that
//! account's permissions, narrowed to the scopes it was issued for.
use crate::collections;
use crate::collections::IdMap;
use crate::item::{Item, ItemView};
use crate::json;
use crate::json::{strings_of, write_strings, JsonView};
use crate::text;
use crate::text::{cat, cat4, cut_once, decimal_string, owned, parse_number, same};
use crate::text::{same_ignoring_ascii_case, starts_with, strip_prefix, trim};
use crate::util::crypto;
use crate::util::crypto::{
    base64url_string, constant_time_same, hex_string, sha256_digest, thread_random,
};
use crate::util::query;
use crate::util::query::parse_query;
use vstd::prelude::*;

verus! {

/// The collection tokens live in.
pub const COLLECTION: &'static str = "api_token";

/// Fields of a token record.
pub const FIELD_USER: &'static str = "user";

pub const FIELD_NAME: &'static str = "name";

pub const FIELD_HASH: &'static str = "hash";

pub const FIELD_SHOWN: &'static str = "shown";

pub const FIELD_SCOPES: &'static str = "scopes";

pub const FIELD_CREATED: &'static str = "created";

pub const FIELD_EXPIRES: &'static str = "expires";

pub const FIELD_LAST_USED: &'static str = "last_used";

pub const FIELD_REVOKED: &'static str = "revoked";

/// How many bytes of chance a secret carries.
pub const SECRET_BYTES: usize = 32;

/// How stale the mark of last use may be, in seconds.
pub const TOUCH_INTERVAL_SECS: u64 = 60;

/// The seconds of a day.
pub const DAY_SECS: u64 = 86_400;

/// Whether the generic item endpoints must not touch a collection: true of the
/// one that holds the tokens, and of no other.
pub fn hidden_from_item_api(collection: &str) -> (r: bool)
    ensures
        r == (collection@ == COLLECTION@),
{
    same(collection, COLLECTION)
}

// ---------------------------------------------------------------------------
// The text of a token
// ---------------------------------------------------------------------------

/// A token as presented: the part that finds the record and the part that
/// proves it.
#[derive(Debug, PartialEq, Eq)]
pub struct Presented {
    pub id: u64,
    pub secret: String,
}

/// What a text presents as a token, if it is one.
pub open spec fn presented(s: Seq<char>) -> Option<(u64, Seq<char>)> {
    match text::without_prefix(text::trimmed(s), "mid_"@) {
        None => None,
        Some(rest) => match text::split_once(rest, '_') {
            None => None,
            Some((id, secret)) => if secret.len() == 0 {
                None
            } else {
                match text::number(id) {
                    None => None,
                    Some(n) => Some((n, secret)),
                }
            },
        },
    }
}

/// Reads `mid_<id>_<secret>`, or decides that this is none of ours.
pub fn parse(s: &str) -> (r: Option<Presented>)
    ensures
        match r {
            Some(p) => presented(s@) == Some((p.id, p.secret@)),
            None => presented(s@) is None,
        },
{
    let trimmed = trim(s);
    let rest = match strip_prefix(trimmed.as_str(), "mid_") {
        Some(r) => r,
        None => {
            return None;
        },
    };
    match cut_once(rest.as_str(), '_') {
        Some((id, secret)) => {
            if secret.as_str().is_empty() {
                return None;
            }
            match parse_number(id.as_str()) {
                Some(n) => Some(Presented { id: n, secret }),
                None => None,
            }
        },
        None => None,
    }
}

/// What an `Authorization` header presents as a token, if it is a bearer one.
pub open spec fn presented_in_header(header: Seq<char>) -> Option<(u64, Seq<char>)> {
    match text::split_once(header, ' ') {
        None => None,
        Some((scheme, value)) => if text::ascii_lower(scheme) == text::ascii_lower("bearer"@) {
            presented(value)
        } else {
            None
        },
    }
}

/// The token out of an `Authorization` header, if it carries a bearer one. The
/// scheme is read whatever the case of its letters.
pub fn from_header(header: &str) -> (r: Option<Presented>)
    ensures
        match r {
            Some(p) => presented_in_header(header@) == Some((p.id, p.secret@)),
            None => presented_in_header(header@) is None,
        },
{
    match cut_once(header, ' ') {
        Some((scheme, value)) => {
            if same_ignoring_ascii_case(scheme.as_str(), "bearer") {
                parse(value.as_str())
            } else {
                None
            }
        },
        None => None,
    }
}

/// A whole token.
pub open spec fn assembled(id: u64, secret: Seq<char>) -> Seq<char> {
    "mid_"@ + text::decimal(id as nat) + "_"@ + secret
}

/// The whole token as it is handed to its owner, once.
pub fn assemble(id: u64, secret: &str) -> (r: String)
    ensures
        r@ == assembled(id, secret@),
{
    cat4("mid_", decimal_string(id).as_str(), "_", secret)
}

/// A token that was assembled reads back as what it was made of, as long as
/// the secret is not empty and does not end in white space.
pub proof fn token_round_trip(id: u64, secret: Seq<char>)
    requires
        secret.len() > 0,
        !text::white_space(secret.last()),
    ensures
        presented(assembled(id, secret)) == Some((id, secret)),
{
    let whole = assembled(id, secret);
    let digits = text::decimal(id as nat);
    reveal_strlit("mid_");
    reveal_strlit("_");
    text::decimal_value(id as nat);
    text::number_of_decimal(id);
    assert(whole[0] == 'm');
    assert(whole.last() == secret.last());
    text::trimmed_fixed(whole);
    assert(whole.subrange(0, 4) =~= "mid_"@);
    let rest = whole.skip(4);
    assert(rest =~= digits + "_"@ + secret);
    assert forall|j: int| 0 <= j < digits.len() implies rest[j] != '_' by {
        assert(rest[j] == digits[j]);
        assert(text::is_digit(digits[j]));
    }
    text::position_unique(rest, '_', 0, digits.len() as int);
    assert(rest.take(digits.len() as int) =~= digits);
    assert(rest.skip(digits.len() as int + 1) =~= secret);
}

/// A bearer header around a token reads back as the token, however the scheme
/// is spelled.
pub proof fn header_round_trip(scheme: Seq<char>, id: u64, secret: Seq<char>)
    requires
        text::ascii_lower(scheme) == text::ascii_lower("bearer"@),
        secret.len() > 0,
        !text::white_space(secret.last()),
    ensures
        presented_in_header(scheme + " "@ + assembled(id, secret)) == Some((id, secret)),
{
    token_round_trip(id, secret);
    reveal_strlit("bearer");
    reveal_strlit(" ");
    let whole = assembled(id, secret);
    let header = scheme + " "@ + whole;
    assert(text::ascii_lower("bearer"@).len() == 6);
    assert(text::ascii_lower(scheme).len() == scheme.len());
    assert forall|j: int| 0 <= j < 6 implies header[j] != ' ' by {
        assert(header[j] == scheme[j]);
        assert(text::ascii_lower(scheme)[j] == text::ascii_small(scheme[j]));
        assert(text::ascii_lower("bearer"@)[j] == text::ascii_small("bearer"@[j]));
    }
    text::position_unique(header, ' ', 0, 6);
    assert(header.take(6) =~= scheme);
    assert(header.skip(7) =~= whole);
}

// ---------------------------------------------------------------------------
// Secrets
// ---------------------------------------------------------------------------

/// What is stored for a secret.
pub open spec fn hash_of(secret: Seq<char>) -> Seq<char> {
    crypto::hex(crypto::sha256(vstd::utf8::encode_utf8(secret)))
}

/// What is stored for a secret, and what a presented one is measured against.
pub fn hash(secret: &str) -> (r: String)
    ensures
        r@ == hash_of(secret@),
        r@.len() == 64,
{
    let digest = sha256_digest(secret.as_bytes());
    hex_string(digest.as_slice())
}

/// A new secret: 43 characters of the URL-safe base64 alphabet, by chance.
pub fn generate_secret() -> (r: String)
    ensures
        r@.len() == 43,
        forall|i: int| 0 <= i < r@.len() ==> crypto::url_safe(#[trigger] r@[i]),
{
    let bytes = thread_random(SECRET_BYTES);
    base64url_string(bytes.as_slice())
}

/// A token made of a generated secret reads back as what it was made of.
pub proof fn generated_token_round_trip(id: u64, secret: Seq<char>)
    requires
        secret.len() == 43,
        forall|i: int| 0 <= i < secret.len() ==> crypto::url_safe(#[trigger] secret[i]),
    ensures
        presented(assembled(id, secret)) == Some((id, secret)),
{
    assert(crypto::url_safe(secret[42]));
    token_round_trip(id, secret);
}

/// The opening characters of a secret, at most six.
pub open spec fn shown_of(secret: Seq<char>) -> Seq<char> {
    if secret.len() <= 6 {
        secret
    } else {
        secret.take(6)
    }
}

/// The opening characters of a secret, by which its owner tells it from others.
pub fn shown_part(secret: &str) -> (r: String)
    ensures
        r@ == shown_of(secret@),
{
    let cs = text::chars_of(secret);
    if cs.len() <= 6 {
        owned(secret)
    } else {
        proof {
            assert(cs@.subrange(0, 6) =~= secret@.take(6));
        }
        text::piece(&cs, 0, 6)
    }
}

// ---------------------------------------------------------------------------
// Checking a token
// ---------------------------------------------------------------------------

/// Why a presented token was not accepted.
#[derive(Clone, Copy, Debug, PartialEq, Eq, Structural)]
pub enum Rejected {
    /// No such token. Also what a guessed id gets.
    Unknown,
    /// The id exists and the secret does not match it.
    WrongSecret,
    Revoked,
    Expired,
    /// The account it belongs to is gone or may not sign in.
    OwnerInactive,
}

impl Rejected {
    /// The reason, for the log.
    pub open spec fn reason_text(self) -> Seq<char> {
        match self {
            Rejected::Unknown => "no such token"@,
            Rejected::WrongSecret => "secret does not match"@,
            Rejected::Revoked => "token was revoked"@,
            Rejected::Expired => "token has expired"@,
            Rejected::OwnerInactive => "owner is inactive or gone"@,
        }
    }

    /// The reason, for the log.
    pub fn reason(&self) -> (r: &'static str)
        ensures
            r@ == self.reason_text(),
    {
        match self {
            Rejected::Unknown => "no such token",
            Rejected::WrongSecret => "secret does not match",
            Rejected::Revoked => "token was revoked",
            Rejected::Expired => "token has expired",
            Rejected::OwnerInactive => "owner is inactive or gone",
        }
    }
}

/// Whether a record holds good for a secret with this hash at a time.
pub open spec fn standing(record: ItemView, digest: Seq<char>, now: u64) -> Result<(), Rejected> {
    if record.bool(FIELD_REVOKED@, false) {
        Err(Rejected::Revoked)
    } else if record.u64(FIELD_EXPIRES@, 0) != 0 && now >= record.u64(FIELD_EXPIRES@, 0) {
        Err(Rejected::Expired)
    } else if record.str(FIELD_HASH@, Seq::empty()) != digest {
        Err(Rejected::WrongSecret)
    } else {
        Ok(())
    }
}

/// Checks a stored record against the hash of a presented secret and a clock.
pub fn check_digest(record: &Item, digest: &str, now: u64) -> (r: Result<(), Rejected>)
    ensures
        r == standing(record@, digest@, now),
{
    proof {
        reveal_strlit("");
        assert(""@ =~= Seq::<char>::empty());
    }
    if record.safe_bool(FIELD_REVOKED, false) {
        return Err(Rejected::Revoked);
    }
    let expires: u64 = record.safe_u64(FIELD_EXPIRES, 0);
    if expires != 0 && now >= expires {
        return Err(Rejected::Expired);
    }
    if !constant_time_same(record.safe_str(FIELD_HASH, "").as_str(), digest) {
        return Err(Rejected::WrongSecret);
    }
    Ok(())
}

/// Checks a stored record against a presented secret and a clock.
pub fn check(record: &Item, secret: &str, now: u64) -> (r: Result<(), Rejected>)
    ensures
        r == standing(record@, hash_of(secret@), now),
{
    check_digest(record, hash(secret).as_str(), now)
}

/// The record that a presented token names, checked. `found` is what the store
/// has under the presented id.
pub fn resolve(found: Option<Item>, presented: &Presented, now: u64) -> (r: Result<Item, Rejected>)
    ensures
        match found {
            None => r == Err::<Item, Rejected>(Rejected::Unknown),
            Some(record) => match standing(record@, hash_of(presented.secret@), now) {
                Ok(_) => r == Ok::<Item, Rejected>(record),
                Err(e) => r == Err::<Item, Rejected>(e),
            },
        },
{
    match found {
        None => Err(Rejected::Unknown),
        Some(record) => match check(&record, presented.secret.as_str(), now) {
            Ok(_) => Ok(record),
            Err(e) => Err(e),
        },
    }
}

/// A revoked token is refused whatever the secret and the time.
pub proof fn revoked_is_refused(record: ItemView, digest: Seq<char>, now: u64)
    requires
        record.bool(FIELD_REVOKED@, false),
    ensures
        standing(record, digest, now) == Err::<(), Rejected>(Rejected::Revoked),
{
}

/// An end once passed stays passed: a token that has expired is never accepted
/// again.
pub proof fn expiry_is_final(record: ItemView, digest: Seq<char>, now: u64, later: u64)
    requires
        standing(record, digest, now) == Err::<(), Rejected>(Rejected::Expired),
        now <= later,
    ensures
        standing(record, digest, later) == Err::<(), Rejected>(Rejected::Expired),
{
}


// ---------------------------------------------------------------------------
// Scopes
// ---------------------------------------------------------------------------

/// The scopes that a stored list stands for, given what reading it as JSON gave.
/// A list that cannot be read grants nothing.
pub open spec fn granted_by(read: Result<JsonView, Seq<char>>) -> Seq<Seq<char>> {
    match read {
        Ok(t) => json::texts_of(t),
        Err(_) => Seq::empty(),
    }
}

/// The stored list of scopes of a record.
pub open spec fn scopes_text(record: ItemView) -> Seq<char> {
    record.str(FIELD_SCOPES@, "[]"@)
}

/// The scopes a record grants, as written when it was issued.
pub fn scopes_of(record: &Item) -> (r: Vec<String>)
    ensures
        text::views(r@) == granted_by(json::parsed(scopes_text(record@))),
{
    match json::parse(record.safe_str(FIELD_SCOPES, "[]").as_str()) {
        Ok(j) => strings_of(&j),
        Err(_) => {
            let none: Vec<String> = Vec::new();
            proof {
                assert(text::views(none@) =~= Seq::<Seq<char>>::empty());
            }
            none
        },
    }
}

/// Whether a route is closed to every token, whatever it was issued for: the
/// ways in which a caller could get more than it was given.
pub open spec fn never(path: Seq<char>) -> bool {
    ||| "/secret/"@.is_prefix_of(path)
    ||| "/setting/edit"@.is_prefix_of(path)
    ||| "/setting/gcal_auth"@.is_prefix_of(path)
    ||| "/api_token/"@.is_prefix_of(path)
    ||| "/system/update"@.is_prefix_of(path)
    ||| "/user/pwd"@.is_prefix_of(path)
}

fn is_never(path: &str) -> (r: bool)
    ensures
        r == never(path@),
{
    starts_with(path, "/secret/") || starts_with(path, "/setting/edit") || starts_with(
        path,
        "/setting/gcal_auth",
    ) || starts_with(path, "/api_token/") || starts_with(path, "/system/update") || starts_with(
        path,
        "/user/pwd",
    )
}

/// What a generic item route does, for the routes a scope cannot be named after.
pub open spec fn item_verb(path: Seq<char>) -> Option<Seq<char>> {
    if path == "/itm/list"@ {
        Some("read"@)
    } else if path == "/itm/edit"@ || path == "/itm/del"@ {
        Some("write"@)
    } else {
        None
    }
}

/// What a generic item route does.
pub fn item_route_verb(path: &str) -> (r: Option<&'static str>)
    ensures
        match r {
            Some(v) => item_verb(path@) == Some(v@),
            None => item_verb(path@) is None,
        },
{
    if same(path, "/itm/list") {
        Some("read")
    } else if same(path, "/itm/edit") || same(path, "/itm/del") {
        Some("write")
    } else {
        None
    }
}

/// The collection that a query names, given what reading the query gave.
pub open spec fn named_collection(read: Option<JsonView>) -> Option<Seq<char>> {
    match read {
        Some(t) => match t.at("collection"@) {
            JsonView::Text(c) => if c.len() > 0 {
                Some(c)
            } else {
                None
            },
            _ => None,
        },
        None => None,
    }
}

/// The collection that a query names, given what the query holds.
pub fn collection_in(read: &Option<json::Json>) -> (r: Option<String>)
    ensures
        match r {
            Some(c) => named_collection(json::opt_tree(*read)) == Some(c@),
            None => named_collection(json::opt_tree(*read)) is None,
        },
{
    match read {
        Some(j) => match j.get("collection") {
            Some(json::Json::Text(c)) => {
                if c.as_str().is_empty() {
                    None
                } else {
                    Some(c.clone())
                }
            },
            _ => None,
        },
        None => None,
    }
}

/// The collection that a request names, out of its query string.
pub fn collection_of(query: &str) -> (r: Option<String>)
    ensures
        match r {
            Some(c) => named_collection(query::query_tree(query@)) == Some(c@),
            None => named_collection(query::query_tree(query@)) is None,
        },
{
    let read = parse_query(query);
    collection_in(&read)
}

/// The scope that a request needs.
pub open spec fn needed_scope(path: Seq<char>, declared: Option<Seq<char>>) -> Option<Seq<char>> {
    if path == "/setting/list"@ {
        Some("read"@)
    } else {
        declared
    }
}

/// Whether a request is inside what a token was issued for, or why not.
pub open spec fn scope_verdict(
    path: Seq<char>,
    granted: Seq<Seq<char>>,
    declared: Option<Seq<char>>,
) -> Result<(), Seq<char>> {
    if never(path) {
        Err(path + " is never reachable with a token"@)
    } else {
        match needed_scope(path, declared) {
            None => Err(path + " is in no scope, so no token covers it"@),
            Some(needed) => if granted.contains(needed) {
                Ok(())
            } else {
                Err(path + " needs the '"@ + needed + "' scope"@)
            },
        }
    }
}

/// A borrowed text as its contract speaks of it.
pub open spec fn opt_view(o: Option<&str>) -> Option<Seq<char>> {
    match o {
        Some(s) => Some(s@),
        None => None,
    }
}

fn holds(granted: &[String], needed: &str) -> (r: bool)
    ensures
        r == text::views(granted@).contains(needed@),
{
    let mut i: usize = 0;
    while i < granted.len()
        invariant
            i <= granted@.len(),
            forall|j: int| 0 <= j < i ==> (#[trigger] granted@[j])@ != needed@,
        decreases granted@.len() - i,
    {
        if same(granted[i].as_str(), needed) {
            proof {
                assert(text::views(granted@)[i as int] == needed@);
            }
            return true;
        }
        i = i + 1;
    }
    proof {
        assert forall|j: int| 0 <= j < text::views(granted@).len() implies text::views(
            granted@,
        )[j] != needed@ by {
            assert(granted@[j]@ != needed@);
        }
    }
    false
}

/// Whether a request is inside what a token was issued for.
///
/// `declared` is the scope declared for the handler that the path resolves to,
/// or nothing when nothing declares one: a route that nobody has placed in a
/// scope is not reachable with a token.
pub fn scope_allows(path: &str, granted: &[String], declared: Option<&str>) -> (r: Result<
    (),
    String,
>)
    ensures
        match r {
            Ok(_) => scope_verdict(path@, text::views(granted@), opt_view(declared)) is Ok,
            Err(e) => scope_verdict(path@, text::views(granted@), opt_view(declared)) == Err::<
                (),
                Seq<char>,
            >(e@),
        },
{
    if is_never(path) {
        return Err(cat(path, " is never reachable with a token"));
    }
    let needed: Option<&str> = if same(path, "/setting/list") {
        Some("read")
    } else {
        declared
    };
    match needed {
        None => Err(cat(path, " is in no scope, so no token covers it")),
        Some(n) => {
            if holds(granted, n) {
                Ok(())
            } else {
                Err(cat4(path, " needs the '", n, "' scope"))
            }
        },
    }
}

/// The forbidden routes are forbidden to every token, whatever it was granted
/// and whatever the route declares.
pub proof fn never_means_never(
    path: Seq<char>,
    granted: Seq<Seq<char>>,
    declared: Option<Seq<char>>,
)
    requires
        never(path),
    ensures
        scope_verdict(path, granted, declared) == Err::<(), Seq<char>>(
            path + " is never reachable with a token"@,
        ),
{
}

/// A route in no scope is reachable by no token.
pub proof fn undeclared_is_closed(path: Seq<char>, granted: Seq<Seq<char>>)
    requires
        path != "/setting/list"@,
    ensures
        scope_verdict(path, granted, None) is Err,
{
}

/// A token that holds no scope reaches nothing, and one that does reaches only
/// what needs a scope it holds.
pub proof fn acceptance_needs_the_scope(
    path: Seq<char>,
    granted: Seq<Seq<char>>,
    declared: Option<Seq<char>>,
)
    requires
        scope_verdict(path, granted, declared) is Ok,
    ensures
        needed_scope(path, declared) is Some,
        granted.contains(needed_scope(path, declared)->Some_0),
        granted.len() > 0,
{
}

/// Granting more never closes what was open.
pub proof fn more_scopes_open_no_less(
    path: Seq<char>,
    granted: Seq<Seq<char>>,
    more: Seq<Seq<char>>,
    declared: Option<Seq<char>>,
)
    requires
        scope_verdict(path, granted, declared) is Ok,
        forall|s: Seq<char>| #[trigger] granted.contains(s) ==> more.contains(s),
    ensures
        scope_verdict(path, more, declared) is Ok,
{
}

// ---------------------------------------------------------------------------
// Managing tokens
// ---------------------------------------------------------------------------

/// `std::time::SystemTime::elapsed` of the epoch: the time since then in whole
/// seconds; nothing where the clock stands before it. Nothing is said of the time.
#[verifier::external_body]
fn since_epoch() -> Option<u64> {
    std::time::UNIX_EPOCH.elapsed().map(|d| d.as_secs()).ok()
}

/// The seconds that a clock gave, none where it stands before the epoch.
pub fn seconds_or_zero(since: Option<u64>) -> (r: u64)
    ensures
        r == match since {
            Some(s) => s,
            None => 0,
        },
{
    match since {
        Some(s) => s,
        None => 0,
    }
}

/// The seconds since the epoch, for the fields that hold a time. Which they are,
/// is up to the clock.
pub fn now() -> u64 {
    seconds_or_zero(since_epoch())
}

/// What a caller sends to make a token.
pub struct IssueRequest {
    pub name: String,
    pub scopes: Vec<String>,
    /// Days until it stops working; 0 means that it does not.
    pub expires_days: u64,
}

/// When a token made now for a number of days ends; 0 when it does not.
pub open spec fn end_of(now: u64, days: u64) -> u64 {
    if days == 0 {
        0
    } else if now + days * DAY_SECS > u64::MAX {
        u64::MAX
    } else {
        (now + days * DAY_SECS) as u64
    }
}

/// The record of a new token.
pub open spec fn issued_record(
    owner: u64,
    name: Seq<char>,
    scopes: Seq<Seq<char>>,
    days: u64,
    secret: Seq<char>,
    now: u64,
) -> ItemView {
    ItemView::empty().with_id(FIELD_USER@, owner).with_str(
        FIELD_NAME@,
        text::trimmed(name),
    ).with_str(FIELD_HASH@, hash_of(secret)).with_str(FIELD_SHOWN@, shown_of(secret)).with_str(
        FIELD_SCOPES@,
        json::strings_text(scopes),
    ).with_u64(FIELD_CREATED@, now).with_u64(FIELD_EXPIRES@, end_of(now, days)).with_bool(
        FIELD_REVOKED@,
        false,
    )
}

/// Why a request for a token is refused, if it is.
pub open spec fn issue_refusal(name: Seq<char>, scopes: nat) -> Option<Seq<char>> {
    if text::trimmed(name).len() == 0 {
        Some("a token needs a name, so that it can be told from the others"@)
    } else if scopes == 0 {
        Some("a token with no scopes could not be used for anything"@)
    } else {
        None
    }
}

/// The record of a new token for `owner`, made of a secret at a time.
pub fn issue_record(owner: u64, req: &IssueRequest, secret: &str, now: u64) -> (r: Result<
    Item,
    String,
>)
    ensures
        match issue_refusal(req.name@, req.scopes@.len()) {
            Some(e) => r is Err && r->Err_0@ == e,
            None => r is Ok && r->Ok_0@ == issued_record(
                owner,
                req.name@,
                text::views(req.scopes@),
                req.expires_days,
                secret@,
                now,
            ) && json::parsed(scopes_text(r->Ok_0@)) == Ok::<JsonView, Seq<char>>(
                json::text_array(text::views(req.scopes@)),
            ),
        },
{
    let name = trim(req.name.as_str());
    if name.as_str().is_empty() {
        return Err(owned("a token needs a name, so that it can be told from the others"));
    }
    if req.scopes.len() == 0 {
        return Err(owned("a token with no scopes could not be used for anything"));
    }
    let mut itm = Item::new();
    itm.set_id(FIELD_USER, owner);
    itm.set_str(FIELD_NAME, name.as_str());
    itm.set_str(FIELD_HASH, hash(secret).as_str());
    itm.set_str(FIELD_SHOWN, shown_part(secret).as_str());
    let scopes = match write_strings(&req.scopes) {
        Some(t) => t,
        None => owned("[]"),
    };
    itm.set_str(FIELD_SCOPES, scopes.as_str());
    itm.set_u64(FIELD_CREATED, now);
    let end: u64 = if req.expires_days == 0 {
        0
    } else {
        let span: u64 = match req.expires_days.checked_mul(DAY_SECS) {
            Some(s) => s,
            None => u64::MAX,
        };
        now.saturating_add(span)
    };
    itm.set_u64(FIELD_EXPIRES, end);
    itm.set_bool(FIELD_REVOKED, false);
    Ok(itm)
}

/// The record of a new token for `owner`, and the secret it was made of.
/// Whatever the secret and the time, the record is the one for them.
pub fn issue(owner: u64, req: &IssueRequest) -> (r: Result<(Item, String), String>)
    ensures
        match issue_refusal(req.name@, req.scopes@.len()) {
            Some(e) => r is Err && r->Err_0@ == e,
            None => {
                &&& r is Ok
                &&& r->Ok_0.1@.len() == 43
                &&& forall|i: int|
                    0 <= i < r->Ok_0.1@.len() ==> crypto::url_safe(#[trigger] r->Ok_0.1@[i])
                &&& r->Ok_0.0@ == issued_record(
                    owner,
                    req.name@,
                    text::views(req.scopes@),
                    req.expires_days,
                    r->Ok_0.1@,
                    r->Ok_0.0@.u64(FIELD_CREATED@, 0),
                )
            },
        },
{
    let secret = generate_secret();
    let made: u64 = now();
    match issue_record(owner, req, secret.as_str(), made) {
        Ok(itm) => {
            proof {
                distinct_fields();
            }
            Ok((itm, secret))
        },
        Err(e) => Err(e),
    }
}

/// The names of the fields differ where one map holds several.
proof fn distinct_fields()
    ensures
        FIELD_CREATED@ != FIELD_EXPIRES@,
        FIELD_CREATED@ != FIELD_LAST_USED@,
        FIELD_EXPIRES@ != FIELD_LAST_USED@,
        FIELD_HASH@ != FIELD_SHOWN@,
        FIELD_HASH@ != FIELD_SCOPES@,
        FIELD_HASH@ != FIELD_NAME@,
        FIELD_SHOWN@ != FIELD_SCOPES@,
        FIELD_SHOWN@ != FIELD_NAME@,
        FIELD_SCOPES@ != FIELD_NAME@,
{
    reveal_strlit("created");
    reveal_strlit("expires");
    reveal_strlit("last_used");
    reveal_strlit("hash");
    reveal_strlit("shown");
    reveal_strlit("scopes");
    reveal_strlit("name");
    assert(FIELD_CREATED@[0] != FIELD_EXPIRES@[0]);
    assert(FIELD_CREATED@[0] != FIELD_LAST_USED@[0]);
    assert(FIELD_EXPIRES@[0] != FIELD_LAST_USED@[0]);
    assert(FIELD_HASH@[0] != FIELD_SHOWN@[0]);
    assert(FIELD_HASH@[0] != FIELD_SCOPES@[0]);
    assert(FIELD_HASH@[0] != FIELD_NAME@[0]);
    assert(FIELD_SHOWN@[1] != FIELD_SCOPES@[1]);
    assert(FIELD_SHOWN@[0] != FIELD_NAME@[0]);
    assert(FIELD_SCOPES@[0] != FIELD_NAME@[0]);
}

/// A token that was just issued is accepted with its secret, until its end.
pub proof fn issued_is_accepted(
    owner: u64,
    name: Seq<char>,
    scopes: Seq<Seq<char>>,
    days: u64,
    secret: Seq<char>,
    made: u64,
    now: u64,
)
    requires
        days == 0 || now < end_of(made, days),
    ensures
        standing(
            issued_record(owner, name, scopes, days, secret, made),
            hash_of(secret),
            now,
        ) is Ok,
{
    distinct_fields();
}

/// What a token was issued for is what it grants: reading the stored list gives
/// the scopes it was written from.
pub proof fn issued_scopes_are_granted(scopes: Seq<Seq<char>>, read: Result<JsonView, Seq<char>>)
    requires
        read == Ok::<JsonView, Seq<char>>(json::text_array(scopes)),
    ensures
        granted_by(read) == scopes,
{
    json::texts_of_text_array(scopes);
}


/// The update that notes a use of a token, where it has not been noted lately.
pub open spec fn touch_update(record: ItemView, now: u64) -> Option<ItemView> {
    if now - record.u64(FIELD_LAST_USED@, 0) < TOUCH_INTERVAL_SECS {
        None
    } else {
        Some(ItemView::empty().numbered(record.id).with_u64(FIELD_LAST_USED@, now))
    }
}

/// The update that notes a use of a token, where it has not been noted lately.
/// It is to be merged into the record.
pub fn touch(record: &Item, now: u64) -> (r: Option<Item>)
    ensures
        match r {
            Some(u) => touch_update(record@, now) == Some(u@),
            None => touch_update(record@, now) is None,
        },
{
    let last: u64 = record.safe_u64(FIELD_LAST_USED, 0);
    if now < last || now - last < TOUCH_INTERVAL_SECS {
        return None;
    }
    let mut itm = Item::new();
    itm.id = record.id;
    itm.set_u64(FIELD_LAST_USED, now);
    Some(itm)
}

/// Noting a use of a token changes nothing about what it is good for.
pub proof fn touching_keeps_standing(record: ItemView, noted: u64, digest: Seq<char>, now: u64)
    requires
        touch_update(record, noted) is Some,
    ensures
        standing(record.overlaid(touch_update(record, noted)->Some_0), digest, now) == standing(
            record,
            digest,
            now,
        ),
        scopes_text(record.overlaid(touch_update(record, noted)->Some_0)) == scopes_text(record),
{
    distinct_fields();
}

/// The update that stops a token.
pub open spec fn revocation(id: u64) -> ItemView {
    ItemView::empty().numbered(id).with_bool(FIELD_REVOKED@, true)
}

/// The update that stops a token working, without losing the record of it. It
/// is to be merged into the record.
pub fn revoke(id: u64) -> (r: Item)
    ensures
        r@ == revocation(id),
{
    let mut itm = Item::new();
    itm.id = id;
    itm.set_bool(FIELD_REVOKED, true);
    itm
}

/// A revoked token is never accepted again, and the rest of its record stays.
pub proof fn revocation_stops(record: ItemView, digest: Seq<char>, now: u64)
    ensures
        standing(record.overlaid(revocation(record.id)), digest, now) == Err::<(), Rejected>(
            Rejected::Revoked,
        ),
        record.overlaid(revocation(record.id)).strs == record.strs,
        record.overlaid(revocation(record.id)).ids == record.ids,
{
    let r = record.overlaid(revocation(record.id));
    assert(r.strs =~= record.strs);
    assert(r.ids =~= record.ids);
}

/// One token as its owner sees it afterwards: never the secret, nor its hash.
pub struct TokenView {
    pub id: u64,
    pub name: String,
    pub shown: String,
    pub scopes: Vec<String>,
    pub created: u64,
    pub expires: u64,
    pub last_used: u64,
    pub revoked: bool,
}

/// Whether a view shows a record.
pub open spec fn shows(v: TokenView, record: ItemView) -> bool {
    &&& v.id == record.id
    &&& v.name@ == record.str(FIELD_NAME@, Seq::empty())
    &&& v.shown@ == record.str(FIELD_SHOWN@, Seq::empty())
    &&& text::views(v.scopes@) == granted_by(json::parsed(scopes_text(record)))
    &&& v.created == record.u64(FIELD_CREATED@, 0)
    &&& v.expires == record.u64(FIELD_EXPIRES@, 0)
    &&& v.last_used == record.u64(FIELD_LAST_USED@, 0)
    &&& v.revoked == record.bool(FIELD_REVOKED@, false)
}

impl TokenView {
    /// What its owner sees of a record.
    pub fn of(record: &Item) -> (r: TokenView)
        ensures
            shows(r, record@),
    {
        proof {
            reveal_strlit("");
            assert(""@ =~= Seq::<char>::empty());
        }
        TokenView {
            id: record.id,
            name: record.safe_str(FIELD_NAME, ""),
            shown: record.safe_str(FIELD_SHOWN, ""),
            scopes: scopes_of(record),
            created: record.safe_u64(FIELD_CREATED, 0),
            expires: record.safe_u64(FIELD_EXPIRES, 0),
            last_used: record.safe_u64(FIELD_LAST_USED, 0),
            revoked: record.safe_bool(FIELD_REVOKED, false),
        }
    }
}

/// Whether a record is a token of an account.
pub open spec fn belongs_to(record: ItemView, owner: u64) -> bool {
    record.reference(FIELD_USER@, u64::MAX) == owner
}

/// Whether `views` shows the records under `keys`, which are those of an
/// account, each once.
pub open spec fn listing(
    all: Map<u64, ItemView>,
    owner: u64,
    keys: Seq<u64>,
    views: Seq<TokenView>,
) -> bool {
    &&& keys.len() == views.len()
    &&& keys.no_duplicates()
    &&& forall|i: int|
        0 <= i < keys.len() ==> all.contains_key(#[trigger] keys[i]) && belongs_to(
            all[keys[i]],
            owner,
        ) && shows(views[i], all[keys[i]])
    &&& forall|k: u64| #[trigger]
        all.contains_key(k) && belongs_to(all[k], owner) ==> keys.contains(k)
}

/// Whether `views` shows the tokens of an account, each once.
pub open spec fn lists(all: Map<u64, ItemView>, owner: u64, views: Seq<TokenView>) -> bool {
    exists|keys: Seq<u64>| #[trigger] listing(all, owner, keys, views)
}

/// Whether the newest come first.
pub open spec fn newest_first(views: Seq<TokenView>) -> bool {
    forall|i: int, j: int|
        #![trigger views[i], views[j]]
        0 <= i < j < views.len() ==> views[i].created >= views[j].created
}

/// Every token of one account, the newest first.
pub fn list_of(all: &IdMap<Item>, owner: u64) -> (r: Vec<TokenView>)
    ensures
        lists(all@, owner, r@),
        newest_first(r@),
{
    let n: usize = all.len();
    let ghost pairs = all.pairs();
    let mut r: Vec<TokenView> = Vec::new();
    let ghost mut keys: Seq<u64> = Seq::empty();
    let mut i: usize = 0;
    while i < n
        invariant
            i <= n,
            n == pairs.len(),
            pairs == all.pairs(),
            collections::ascending(pairs),
            collections::distinct_keys(pairs),
            newest_first(r@),
            keys.len() == r@.len(),
            keys.no_duplicates(),
            forall|j: int|
                0 <= j < keys.len() ==> all@.contains_key(#[trigger] keys[j]) && belongs_to(
                    all@[keys[j]],
                    owner,
                ) && shows(r@[j], all@[keys[j]]) && (i < n ==> keys[j] < pairs[i as int].0),
            forall|j: int|
                0 <= j < i && belongs_to((#[trigger] pairs[j]).1, owner) ==> keys.contains(
                    pairs[j].0,
                ),
        decreases n - i,
    {
        let record = all.value(i);
        let ghost id = pairs[i as int].0;
        proof {
            collections::map_of_has(pairs, i as int);
        }
        if record.safe_id(FIELD_USER, u64::MAX) == owner {
            let v = TokenView::of(record);
            let made: u64 = v.created;
            let ghost was = r@;
            let ghost had = keys;
            let mut p: usize = r.len();
            while p > 0 && r[p - 1].created < made
                invariant
                    p <= r.len(),
                    r@ == was,
                    forall|a: int| p <= a < r@.len() ==> (#[trigger] r@[a]).created < made,
                decreases p,
            {
                p = p - 1;
            }
            r.insert(p, v);
            proof {
                keys = had.insert(p as int, id);
                assert forall|a: int, b: int| 0 <= a < b < r@.len() implies (
                #[trigger] r@[a]).created >= (#[trigger] r@[b]).created by {
                    let a1 = if a < p { a } else { a - 1 };
                    let b1 = if b < p { b } else { b - 1 };
                    if a != p && b != p {
                        assert(was[a1].created >= was[b1].created);
                    } else if b == p && p > 0 && a1 < p - 1 {
                        assert(was[a1].created >= was[p - 1].created);
                    }
                }
                assert forall|j: int| 0 <= j < keys.len() implies all@.contains_key(
                    #[trigger] keys[j],
                ) && belongs_to(all@[keys[j]], owner) && shows(r@[j], all@[keys[j]]) && (i + 1 < n
                    ==> keys[j] < pairs[i + 1].0) by {
                    if i + 1 < n {
                        assert(pairs[i as int].0 < pairs[i + 1].0);
                    }
                    if j < p {
                        assert(keys[j] == had[j]);
                    } else if j > p {
                        assert(keys[j] == had[j - 1]);
                    }
                }
                assert(keys.no_duplicates()) by {
                    assert forall|a: int, b: int|
                        0 <= a < keys.len() && 0 <= b < keys.len() && a != b implies keys[a]
                        != keys[b] by {
                        let a1 = if a < p { a } else { a - 1 };
                        let b1 = if b < p { b } else { b - 1 };
                        if a != p && b != p {
                            assert(had[a1] != had[b1]);
                        } else if a == p {
                            assert(had[b1] < id);
                        } else {
                            assert(had[a1] < id);
                        }
                    }
                }
                assert forall|j: int|
                    0 <= j < i + 1 && belongs_to(
                        (#[trigger] pairs[j]).1,
                        owner,
                    ) implies keys.contains(pairs[j].0) by {
                    if j == i {
                        assert(keys[p as int] == id);
                    } else {
                        let x = choose|x: int| 0 <= x < had.len() && had[x] == pairs[j].0;
                        let x1 = if x < p { x } else { x + 1 };
                        assert(keys[x1] == pairs[j].0);
                    }
                }
            }
        } else {
            proof {
                if i + 1 < n {
                    assert(pairs[i as int].0 < pairs[i + 1].0);
                }
            }
        }
        i = i + 1;
    }
    proof {
        assert forall|k: u64| #[trigger]
            all@.contains_key(k) && belongs_to(all@[k], owner) implies keys.contains(k) by {
            let j = collections::map_of_from(pairs, k);
            assert(belongs_to(pairs[j].1, owner));
        }
        assert(listing(all@, owner, keys, r@));
    }
    r
}

/// Whose tokens a list is asked for.
pub struct OwnerQuery {
    pub user: Option<u64>,
}

/// Which token to revoke.
pub struct RevokeRequest {
    pub id: u64,
}

/// The account a request about tokens is made for. `me` is the account that
/// asks, `admin` whether it is an administrator.
pub open spec fn subject_of(me: Option<u64>, admin: bool, asked_for: Option<u64>) -> Result<
    u64,
    Seq<char>,
> {
    match me {
        None => Err("no such account"@),
        Some(id) => match asked_for {
            None => Ok(id),
            Some(other) => if other == id || admin {
                Ok(other)
            } else {
                Err("that is somebody else's token"@)
            },
        },
    }
}

/// The account a request about tokens is made for: a person manages their own,
/// an administrator also somebody else's.
pub fn subject(me: Option<u64>, admin: bool, asked_for: Option<u64>) -> (r: Result<u64, String>)
    ensures
        match r {
            Ok(id) => subject_of(me, admin, asked_for) == Ok::<u64, Seq<char>>(id),
            Err(e) => subject_of(me, admin, asked_for) == Err::<u64, Seq<char>>(e@),
        },
{
    match me {
        None => Err(owned("no such account")),
        Some(id) => match asked_for {
            None => Ok(id),
            Some(other) => {
                if other == id || admin {
                    Ok(other)
                } else {
                    Err(owned("that is somebody else's token"))
                }
            },
        },
    }
}

/// The record that a request for a new token asks for, and the secret that it was
/// made of, or why it is refused. Everybody gets tokens for their own account
/// alone.
pub fn api_token_issue(me: Option<u64>, req: &IssueRequest) -> (r: Result<(Item, String), String>)
    ensures
        match me {
            None => r is Err && r->Err_0@ == "no such account"@,
            Some(owner) => match issue_refusal(req.name@, req.scopes@.len()) {
                Some(e) => r is Err && r->Err_0@ == e,
                None => {
                    &&& r is Ok
                    &&& r->Ok_0.1@.len() == 43
                    &&& forall|i: int|
                        0 <= i < r->Ok_0.1@.len() ==> crypto::url_safe(#[trigger] r->Ok_0.1@[i])
                    &&& r->Ok_0.0@ == issued_record(
                        owner,
                        req.name@,
                        text::views(req.scopes@),
                        req.expires_days,
                        r->Ok_0.1@,
                        r->Ok_0.0@.u64(FIELD_CREATED@, 0),
                    )
                },
            },
        },
{
    match subject(me, false, None) {
        Ok(owner) => issue(owner, req),
        Err(e) => Err(e),
    }
}

/// The tokens that a request to list asks for, or why it is refused.
pub fn api_token_list(
    all: &IdMap<Item>,
    me: Option<u64>,
    admin: bool,
    asked_for: Option<u64>,
) -> (r: Result<Vec<TokenView>, String>)
    ensures
        match subject_of(me, admin, asked_for) {
            Ok(owner) => r is Ok && lists(all@, owner, r->Ok_0@) && newest_first(r->Ok_0@),
            Err(e) => r is Err && r->Err_0@ == e,
        },
{
    match subject(me, admin, asked_for) {
        Ok(owner) => Ok(list_of(all, owner)),
        Err(e) => Err(e),
    }
}

/// The update that a request to revoke asks for, or why it is refused. Whose
/// the token is decides who may revoke it.
pub fn api_token_revoke(
    req: &RevokeRequest,
    found: Option<&Item>,
    me: Option<u64>,
    admin: bool,
) -> (r: Result<Item, String>)
    ensures
        match found {
            None => r is Err && r->Err_0@ == "no such token"@,
            Some(record) => match subject_of(
                me,
                admin,
                Some(record@.reference(FIELD_USER@, u64::MAX)),
            ) {
                Ok(_) => r is Ok && r->Ok_0@ == revocation(req.id),
                Err(e) => r is Err && r->Err_0@ == e,
            },
        },
{
    match found {
        None => Err(owned("no such token")),
        Some(record) => match subject(me, admin, Some(record.safe_id(FIELD_USER, u64::MAX))) {
            Ok(_) => Ok(revoke(req.id)),
            Err(e) => Err(e),
        },
    }
}

/// Nobody but its owner or an administrator may revoke a token.
pub proof fn strangers_revoke_nothing(me: u64, owner: u64)
    requires
        me != owner,
    ensures
        subject_of(Some(me), false, Some(owner)) is Err,
{
}

/// The routes that no token opens, and only those: secrets, the settings that are
/// changed and not read, tokens, updates and passwords.
pub proof fn what_no_token_opens(path: Seq<char>, rest: Seq<char>)
    ensures
        never("/secret/"@ + rest),
        never("/setting/edit"@ + rest),
        never("/setting/gcal_auth"@ + rest),
        never("/api_token/"@ + rest),
        never("/system/update"@ + rest),
        never("/user/pwd"@ + rest),
        never(path) ==> exists|tail: Seq<char>|
            path == #[trigger] ("/secret/"@ + tail) || path == "/setting/edit"@ + tail || path
                == "/setting/gcal_auth"@ + tail || path == "/api_token/"@ + tail || path
                == "/system/update"@ + tail || path == "/user/pwd"@ + tail,
{
    assert(("/secret/"@ + rest).subrange(0, "/secret/"@.len() as int) =~= "/secret/"@);
    assert(("/setting/edit"@ + rest).subrange(0, "/setting/edit"@.len() as int)
        =~= "/setting/edit"@);
    assert(("/setting/gcal_auth"@ + rest).subrange(0, "/setting/gcal_auth"@.len() as int)
        =~= "/setting/gcal_auth"@);
    assert(("/api_token/"@ + rest).subrange(0, "/api_token/"@.len() as int) =~= "/api_token/"@);
    assert(("/system/update"@ + rest).subrange(0, "/system/update"@.len() as int)
        =~= "/system/update"@);
    assert(("/user/pwd"@ + rest).subrange(0, "/user/pwd"@.len() as int) =~= "/user/pwd"@);
    if never(path) {
        let p = if "/secret/"@.is_prefix_of(path) {
            "/secret/"@
        } else if "/setting/edit"@.is_prefix_of(path) {
            "/setting/edit"@
        } else if "/setting/gcal_auth"@.is_prefix_of(path) {
            "/setting/gcal_auth"@
        } else if "/api_token/"@.is_prefix_of(path) {
            "/api_token/"@
        } else if "/system/update"@.is_prefix_of(path) {
            "/system/update"@
        } else {
            "/user/pwd"@
        };
        let tail = path.skip(p.len() as int);
        assert(path =~= p + tail);
        let secret = "/secret/"@ + tail;
        assert(path == secret || path == "/setting/edit"@ + tail || path == "/setting/gcal_auth"@
            + tail || path == "/api_token/"@ + tail || path == "/system/update"@ + tail || path
            == "/user/pwd"@ + tail);
    }
}

/// The generic item routes and the reading of settings are not among the routes
/// that no token opens.
pub proof fn item_routes_are_open_to_scopes()
    ensures
        !never("/itm/list"@),
        !never("/itm/edit"@),
        !never("/itm/del"@),
        !never("/setting/list"@),
{
    reveal_strlit("/itm/list");
    reveal_strlit("/itm/edit");
    reveal_strlit("/itm/del");
    reveal_strlit("/setting/list");
    reveal_strlit("/secret/");
    reveal_strlit("/setting/edit");
    reveal_strlit("/setting/gcal_auth");
    reveal_strlit("/api_token/");
    reveal_strlit("/system/update");
    reveal_strlit("/user/pwd");
    assert forall|path: Seq<char>| path.len() >= 2 && path[1] == 'i' implies !#[trigger] never(
        path,
    ) by {
        assert("/secret/"@[1] == 's' && "/setting/edit"@[1] == 's' && "/setting/gcal_auth"@[1]
            == 's' && "/api_token/"@[1] == 'a' && "/system/update"@[1] == 's' && "/user/pwd"@[1]
            == 'u');
        if never(path) {
            if "/secret/"@.is_prefix_of(path) {
                assert(path.subrange(0, "/secret/"@.len() as int)[1] == path[1]);
            } else if "/setting/edit"@.is_prefix_of(path) {
                assert(path.subrange(0, "/setting/edit"@.len() as int)[1] == path[1]);
            } else if "/setting/gcal_auth"@.is_prefix_of(path) {
                assert(path.subrange(0, "/setting/gcal_auth"@.len() as int)[1] == path[1]);
            } else if "/api_token/"@.is_prefix_of(path) {
                assert(path.subrange(0, "/api_token/"@.len() as int)[1] == path[1]);
            } else if "/system/update"@.is_prefix_of(path) {
                assert(path.subrange(0, "/system/update"@.len() as int)[1] == path[1]);
            } else {
                assert(path.subrange(0, "/user/pwd"@.len() as int)[1] == path[1]);
            }
        }
    }
    assert("/itm/list"@[1] == 'i' && "/itm/edit"@[1] == 'i' && "/itm/del"@[1] == 'i');
    let s = "/setting/list"@;
    assert(s[9] == 'l' && s[1] == 's' && s[3] == 't');
    if never(s) {
        if "/secret/"@.is_prefix_of(s) {
            assert(s.subrange(0, 8)[3] == s[3]);
            assert("/secret/"@[3] == 'c');
        } else if "/setting/edit"@.is_prefix_of(s) {
            assert(s.subrange(0, 13)[9] == s[9]);
            assert("/setting/edit"@[9] == 'e');
        } else if "/setting/gcal_auth"@.is_prefix_of(s) {
            assert("/setting/gcal_auth"@.len() == 18);
        } else if "/api_token/"@.is_prefix_of(s) {
            assert(s.subrange(0, 11)[1] == s[1]);
            assert("/api_token/"@[1] == 'a');
        } else if "/system/update"@.is_prefix_of(s) {
            assert("/system/update"@.len() == 14);
        } else {
            assert(s.subrange(0, 9)[1] == s[1]);
            assert("/user/pwd"@[1] == 'u');
        }
    }
}

/// What the generic item routes do: listing reads, editing and deleting write, and
/// no other route is one of them.
pub proof fn what_item_routes_do(path: Seq<char>)
    ensures
        item_verb("/itm/list"@) == Some("read"@),
        item_verb("/itm/edit"@) == Some("write"@),
        item_verb("/itm/del"@) == Some("write"@),
        path != "/itm/list"@ && path != "/itm/edit"@ && path != "/itm/del"@ ==> item_verb(path)
            is None,
{
    reveal_strlit("/itm/list");
    reveal_strlit("/itm/edit");
    reveal_strlit("/itm/del");
    assert("/itm/list"@[5] != "/itm/edit"@[5]);
    assert("/itm/list"@[5] != "/itm/del"@[5]);
}

/// A route is open to a token that grants the very scope that it declares, and to
/// no other; settings are read with the scope to read, whatever is declared.
pub proof fn scopes_open_what_declares_them(
    path: Seq<char>,
    granted: Seq<Seq<char>>,
    declared: Option<Seq<char>>,
)
    ensures
        !never(path) && path != "/setting/list"@ ==> (scope_verdict(path, granted, declared) is Ok
            <==> declared is Some && granted.contains(declared->Some_0)),
        scope_verdict("/setting/list"@, granted, declared) is Ok <==> granted.contains("read"@),
        !never(path) && path != "/setting/list"@ && declared is None ==> scope_verdict(
            path,
            granted,
            declared,
        ) == Err::<(), Seq<char>>(path + " is in no scope, so no token covers it"@),
{
    item_routes_are_open_to_scopes();
}

/// A record holds good until it is revoked or its time is up, for the secret it was
/// made of: that it was revoked is said first, then that it is too late.
pub proof fn what_a_record_stands_on(record: ItemView, digest: Seq<char>, now: u64)
    ensures
        ({
            let revoked = record.bools.contains_key("revoked"@) && record.bools["revoked"@];
            let late = record.u64("expires"@, 0) != 0 && now >= record.u64("expires"@, 0);
            let known = record.str("hash"@, Seq::empty()) == digest;
            &&& standing(record, digest, now) is Ok <==> !revoked && !late && known
            &&& standing(record, digest, now) == Err::<(), Rejected>(Rejected::Revoked) <==> revoked
            &&& standing(record, digest, now) == Err::<(), Rejected>(Rejected::Expired)
                <==> !revoked && late
            &&& standing(record, digest, now) == Err::<(), Rejected>(Rejected::WrongSecret)
                <==> !revoked && !late && !known
        }),
{
}

/// A new token belongs to whoever asked for it, goes by the name they gave it, holds
/// the digest of its secret and not the secret, and ends after its days, or never
/// where none are given.
pub proof fn what_a_new_token_holds(
    owner: u64,
    name: Seq<char>,
    scopes: Seq<Seq<char>>,
    days: u64,
    secret: Seq<char>,
    made: u64,
    k: Seq<char>,
)
    ensures
        ({
            let r = issued_record(owner, name, scopes, days, secret, made);
            &&& r.id == u64::MAX
            &&& r.ids.contains_key("user"@) && r.ids["user"@] == owner
            &&& belongs_to(r, owner)
            &&& forall|other: u64| other != owner ==> !#[trigger] belongs_to(r, other)
            &&& r.strs.contains_key("name"@) && r.strs["name"@] == text::trimmed(name)
            &&& r.strs.contains_key("hash"@) && r.strs["hash"@] == hash_of(secret)
            &&& r.strs.contains_key("shown"@) && r.strs["shown"@].is_prefix_of(secret)
            &&& r.strs["shown"@].len() == (if secret.len() < 6 {
                secret.len()
            } else {
                6
            })
            &&& r.strs.contains_key("scopes"@) && r.strs["scopes"@] == json::strings_text(scopes)
            &&& r.strs.contains_key(k) ==> k == "name"@ || k == "hash"@ || k == "shown"@ || k
                == "scopes"@
            &&& r.u64s.contains_key("created"@) && r.u64s["created"@] == made
            &&& r.u64s.contains_key("expires"@)
            &&& days == 0 ==> r.u64s["expires"@] == 0
            &&& days > 0 && made + days * 86400 <= u64::MAX ==> r.u64s["expires"@] == made + days
                * 86400
            &&& r.bools.contains_key("revoked"@) && !r.bools["revoked"@]
        }),
{
    distinct_fields();
    assert(shown_of(secret).is_prefix_of(secret)) by {
        assert(secret.subrange(0, secret.len() as int) =~= secret);
        if secret.len() > 6 {
            assert(secret.subrange(0, 6) =~= secret.take(6));
        }
    }
}

/// A token is made for a name and at least one scope.
pub proof fn what_a_token_needs(name: Seq<char>, scopes: nat)
    ensures
        issue_refusal(name, scopes) is None <==> text::trimmed(name).len() > 0 && scopes > 0,
        text::trimmed(name).len() == 0 ==> issue_refusal(name, scopes) == Some(
            "a token needs a name, so that it can be told from the others"@,
        ),
        text::trimmed(name).len() > 0 && scopes == 0 ==> issue_refusal(name, scopes) == Some(
            "a token with no scopes could not be used for anything"@,
        ),
{
}

/// A use is noted when a minute has gone by since the last that was, and nothing
/// but the time of it is.
pub proof fn uses_are_noted_by_the_minute(record: ItemView, now: u64, k: Seq<char>)
    ensures
        touch_update(record, now) is Some <==> now >= record.u64("last_used"@, 0) + 60,
        touch_update(record, now) matches Some(u) ==> {
            &&& u.id == record.id
            &&& u.u64s.contains_key("last_used"@) && u.u64s["last_used"@] == now
            &&& u.u64s.contains_key(k) ==> k == "last_used"@
            &&& u.strs == Map::<Seq<char>, Seq<char>>::empty()
            &&& u.bools == Map::<Seq<char>, bool>::empty()
        },
{
}

/// Revoking stops the very token that was named, and writes nothing else.
pub proof fn what_revoking_writes(id: u64, k: Seq<char>)
    ensures
        revocation(id).id == id,
        revocation(id).bools.contains_key("revoked"@),
        revocation(id).bools["revoked"@],
        revocation(id).bools.contains_key(k) ==> k == "revoked"@,
        revocation(id).strs == Map::<Seq<char>, Seq<char>>::empty(),
        revocation(id).u64s == Map::<Seq<char>, u64>::empty(),
{
}

/// Everybody acts for themselves, an administrator for anybody, and nobody for
/// nobody.
pub proof fn who_acts_for_whom(me: u64, admin: bool, other: u64)
    ensures
        subject_of(Some(me), admin, None) == Ok::<u64, Seq<char>>(me),
        subject_of(Some(me), admin, Some(me)) == Ok::<u64, Seq<char>>(me),
        other != me ==> (subject_of(Some(me), admin, Some(other)) is Ok <==> admin),
        admin ==> subject_of(Some(me), admin, Some(other)) == Ok::<u64, Seq<char>>(other),
        subject_of(None, admin, Some(other)) is Err,
        subject_of(None, admin, None) is Err,
{
}

/// What an owner sees of a token is what its record says, and never the digest.
pub proof fn what_a_view_shows(v: TokenView, record: ItemView)
    requires
        shows(v, record),
    ensures
        v.id == record.id,
        v.name@ == record.str("name"@, Seq::empty()),
        v.shown@ == record.str("shown"@, Seq::empty()),
        v.created == record.u64("created"@, 0),
        v.expires == record.u64("expires"@, 0),
        v.last_used == record.u64("last_used"@, 0),
        v.revoked <==> record.bools.contains_key("revoked"@) && record.bools["revoked"@],
        text::views(v.scopes@) == granted_by(json::parsed(record.str("scopes"@, "[]"@))),
{
}

/// A list shows every token of an account, the newest first, and nobody else's.
pub proof fn what_a_list_shows(
    all: Map<u64, ItemView>,
    owner: u64,
    views: Seq<TokenView>,
    k: u64,
    i: int,
    j: int,
)
    requires
        lists(all, owner, views),
        newest_first(views),
    ensures
        all.contains_key(k) && all[k].reference("user"@, u64::MAX) == owner ==> exists|x: int|
            0 <= x < views.len() && shows(#[trigger] views[x], all[k]),
        0 <= i < views.len() ==> exists|key: u64| #[trigger]
            all.contains_key(key) && all[key].reference("user"@, u64::MAX) == owner && shows(
                views[i],
                all[key],
            ),
        0 <= i < j < views.len() ==> views[i].created >= views[j].created,
{
    let keys = choose|keys: Seq<u64>| #[trigger] listing(all, owner, keys, views);
    if all.contains_key(k) && all[k].reference("user"@, u64::MAX) == owner {
        assert(belongs_to(all[k], owner));
        assert(keys.contains(k));
        let x = choose|x: int| 0 <= x < keys.len() && keys[x] == k;
        assert(shows(views[x], all[keys[x]]));
    }
    if 0 <= i < views.len() {
        assert(all.contains_key(keys[i]));
    }
}

/// A scope list that cannot be read grants nothing, and a record without one grants
/// nothing.
pub proof fn unreadable_scopes_grant_nothing(why: Seq<char>, record: ItemView)
    ensures
        granted_by(Err(why)).len() == 0,
        !record.strs.contains_key("scopes"@) ==> scopes_text(record) == "[]"@,
        record.strs.contains_key("scopes"@) ==> scopes_text(record) == record.strs["scopes"@],
{
}

/// A query names a collection where it says one that is not empty.
pub proof fn what_collection_is_named(t: JsonView, c: Seq<char>)
    ensures
        named_collection(Some(t)) == Some(c) <==> c.len() > 0 && t.get("collection"@) == Some(
            JsonView::Text(c),
        ),
        named_collection(None) is None,
{
}

/// A token begins with `mid_`, and a header carries one behind the word `bearer`
/// alone, whatever the case of its letters.
pub proof fn what_a_token_looks_like(s: Seq<char>, header: Seq<char>, id: u64, secret: Seq<char>)
    ensures
        "mid_"@.is_prefix_of(assembled(id, secret)),
        secret.len() <= assembled(id, secret).len(),
        assembled(id, secret).skip(assembled(id, secret).len() - secret.len()) == secret,
        presented(s) is Some ==> "mid_"@.is_prefix_of(text::trimmed(s)) && presented(
            s,
        )->Some_0.1.len() > 0,
        presented_in_header(header) is Some ==> text::split_once(header, ' ') is Some
            && text::ascii_lower(text::split_once(header, ' ')->Some_0.0) == "bearer"@
            && presented_in_header(header) == presented(text::split_once(header, ' ')->Some_0.1),
{
    let a = assembled(id, secret);
    assert(a.subrange(0, "mid_"@.len() as int) =~= "mid_"@);
    assert(a.skip(a.len() - secret.len()) =~= secret);
    reveal_strlit("bearer");
    assert(text::ascii_lower("bearer"@) =~= "bearer"@);
}

/// Each reason for which a token is not accepted is told to the log by its own
/// words.
pub proof fn rejections_are_told_apart()
    ensures
        Rejected::Unknown.reason_text() == "no such token"@,
        Rejected::WrongSecret.reason_text() == "secret does not match"@,
        Rejected::Revoked.reason_text() == "token was revoked"@,
        Rejected::Expired.reason_text() == "token has expired"@,
        Rejected::OwnerInactive.reason_text() == "owner is inactive or gone"@,
{
}

/// Whoever is refused a path is told which it was, and whether no token opens it, no
/// scope has it, or which scope is missing.
pub proof fn what_is_said_of_refused_paths(
    path: Seq<char>,
    granted: Seq<Seq<char>>,
    declared: Option<Seq<char>>,
)
    ensures
        never(path) ==> scope_verdict(path, granted, declared) == Err::<(), Seq<char>>(
            path + " is never reachable with a token"@,
        ),
        !never(path) && needed_scope(path, declared) is None ==> scope_verdict(
            path,
            granted,
            declared,
        ) == Err::<(), Seq<char>>(path + " is in no scope, so no token covers it"@),
        forall|needed: Seq<char>|
            !never(path) && needed_scope(path, declared) == Some(needed)
                && !#[trigger] granted.contains(needed) ==> scope_verdict(path, granted, declared)
                == Err::<(), Seq<char>>(path + " needs the '"@ + needed + "' scope"@),
{
}

/// Whoever acts for nobody or for somebody else without being allowed to is told so.
pub proof fn what_is_said_to_strangers(me: u64, other: u64, admin: bool, asked: Option<u64>)
    ensures
        subject_of(None, admin, asked) == Err::<u64, Seq<char>>("no such account"@),
        me != other ==> subject_of(Some(me), false, Some(other)) == Err::<u64, Seq<char>>(
            "that is somebody else's token"@,
        ),
{
}

} // verus!
