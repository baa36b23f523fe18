//! What is decided of every request before a handler sees it.
use crate::collections::StrMap;
use crate::item::{Item, ItemView};
use crate::json;
use crate::json::{Json, JsonView};
use crate::server::api_token;
use crate::server::api_token::{check, collection_of, from_header, item_route_verb, scope_allows};
use crate::server::api_token::{scopes_of, touch, Presented, Rejected, FIELD_USER};
use crate::server::user_control;
use crate::server::user_control::session_generation;
use crate::state::store::UserLookup;
use crate::text;
use crate::text::{cat3, owned};
use crate::util::query;
use vstd::prelude::*;

verus! {

/// The key under which a session carries its generation.
pub const SESSION_GEN_KEY: &'static str = "sgen";

/// Whether a request frames its body two ways at once, and is to be refused.
pub fn reject_ambiguous_framing(content_length: bool, transfer_encoding: bool) -> (r: bool)
    ensures
        r == (content_length && transfer_encoding),
{
    content_length && transfer_encoding
}

/// Whether a session is to be dropped, given the generation it carries and
/// what the lookup of its account established.
pub open spec fn stale(carried: Option<u64>, lookup: UserLookup) -> bool {
    match lookup {
        UserLookup::Found(usr) => (match carried {
            Some(g) => g,
            None => 0,
        }) != user_control::generation(usr@),
        UserLookup::Absent => carried is Some,
        UserLookup::Unavailable => false,
    }
}

/// Whether a session is to be dropped.
///
/// A session that carries no generation reads as generation 0. One whose
/// account is gone is dropped only when it carries one. A store that did not
/// answer establishes nothing, and drops nothing.
pub fn enforce_session_generation(carried: Option<u64>, lookup: &UserLookup) -> (r: bool)
    ensures
        r == stale(carried, *lookup),
{
    match lookup {
        UserLookup::Found(usr) => {
            let shown: u64 = match carried {
                Some(g) => g,
                None => 0,
            };
            shown != session_generation(usr)
        },
        UserLookup::Absent => carried.is_some(),
        UserLookup::Unavailable => false,
    }
}

/// A session stamped when it was opened is good exactly as long as its account
/// stays in that generation.
pub proof fn stamped_session_lasts_a_generation(opened: ItemView, now: Item)
    ensures
        stale(Some(user_control::generation(opened)), UserLookup::Found(now))
            <==> user_control::generation(opened) != user_control::generation(now@),
{
}

/// Moving an account to its next generation ends every session stamped before.
pub proof fn raising_the_generation_ends_sessions(user: ItemView, bumped: ItemView, now: Item)
    requires
        user_control::generation(user) < u64::MAX,
        bumped == ItemView::empty().numbered(user.id).with_u64(
            "session_gen"@,
            (user_control::generation(user) + 1) as u64,
        ),
        now@ == user.overlaid(bumped),
    ensures
        stale(Some(user_control::generation(user)), UserLookup::Found(now)),
{
}

/// A store that cannot answer revokes nothing.
pub proof fn silence_revokes_nothing(carried: Option<u64>)
    ensures
        !stale(carried, UserLookup::Unavailable),
{
}

// ---------------------------------------------------------------------------
// API tokens in place of a session
// ---------------------------------------------------------------------------

/// A request that ends here: the status, what the caller is told, and what the
/// log is told.
pub struct TokenRefusal {
    pub status: u16,
    pub message: String,
    pub reason: String,
}

/// The body of a refusal.
pub fn refusal_body(message: &str) -> (r: Json)
    ensures
        r@ == JsonView::object().with("succeeded"@, JsonView::Bool(false)).with(
            "error"@,
            JsonView::Text(message@),
        ),
{
    Json::object().with("succeeded", Json::Bool(false)).with_text("error", message)
}

/// The token that a request presents in its `Authorization` header, if it
/// presents one. A request that does not passes untouched.
pub fn presented_token(authorization: Option<&str>) -> (r: Option<Presented>)
    ensures
        match authorization {
            None => r is None,
            Some(h) => match r {
                Some(p) => api_token::presented_in_header(h@) == Some((p.id, p.secret@)),
                None => api_token::presented_in_header(h@) is None,
            },
        },
{
    match authorization {
        Some(h) => from_header(h),
        None => None,
    }
}

fn unauthorized(message: &str, reason: &str) -> (r: TokenRefusal)
    ensures
        r.status == 401,
        r.message@ == message@,
        r.reason@ == reason@,
{
    TokenRefusal { status: 401, message: owned(message), reason: owned(reason) }
}

/// What is refused of a presented token before its owner is looked up. The
/// caller is told the same whatever was wrong.
pub open spec fn record_refusal(
    found: Option<ItemView>,
    secret: Seq<char>,
    now: u64,
) -> Option<Rejected> {
    match found {
        None => Some(Rejected::Unknown),
        Some(record) => match api_token::standing(record, api_token::hash_of(secret), now) {
            Ok(_) => None,
            Err(e) => Some(e),
        },
    }
}

/// Checks the record under the id that a token presents, and gives the id of
/// the account it belongs to.
pub fn check_presented(found: &Option<Item>, presented: &Presented, now: u64) -> (r: Result<
    u64,
    TokenRefusal,
>)
    ensures
        match record_refusal(user_control::opt_item(*found), presented.secret@, now) {
            None => r == Ok::<u64, TokenRefusal>(
                found->Some_0@.reference(FIELD_USER@, u64::MAX),
            ),
            Some(e) => r is Err && r->Err_0.status == 401 && r->Err_0.message@ == "invalid token"@
                && r->Err_0.reason@ == e.reason_text(),
        },
{
    match found {
        None => Err(unauthorized("invalid token", Rejected::Unknown.reason())),
        Some(record) => match check(record, presented.secret.as_str(), now) {
            Ok(_) => Ok(record.safe_id(FIELD_USER, u64::MAX)),
            Err(e) => Err(unauthorized("invalid token", e.reason())),
        },
    }
}

/// The scope that is declared for a request: that of the collection it acts on
/// for the generic item routes, else that of the route.
pub open spec fn declared(
    route_scopes: Map<Seq<char>, Seq<char>>,
    collection_scopes: Map<Seq<char>, Seq<char>>,
    path: Seq<char>,
    named: Option<Seq<char>>,
) -> Option<Seq<char>> {
    match api_token::item_verb(path) {
        Some(verb) => match named {
            Some(c) => collection_scopes.get(c + ":"@ + verb),
            None => None,
        },
        None => route_scopes.get(path),
    }
}

/// The scope that is declared for a request to a path about a collection.
pub fn declared_scope(
    route_scopes: &StrMap<String>,
    collection_scopes: &StrMap<String>,
    path: &str,
    named: &Option<String>,
) -> (r: Option<String>)
    ensures
        text_of(r) == declared(route_scopes@, collection_scopes@, path@, text_of(*named)),
{
    let found: Option<&String> = match item_route_verb(path) {
        Some(verb) => match named {
            Some(c) => collection_scopes.get(cat3(c.as_str(), ":", verb).as_str()),
            None => None,
        },
        None => route_scopes.get(path),
    };
    match found {
        Some(s) => Some(s.clone()),
        None => None,
    }
}

/// A text that may be there, as its contract speaks of it.
pub open spec fn text_of(o: Option<String>) -> Option<Seq<char>> {
    match o {
        Some(s) => Some(s@),
        None => None,
    }
}

/// A request that a token lets through: the identity it goes on with, the
/// generation its session is stamped with, whether the session is dropped
/// again afterwards, and the update that notes the use.
pub struct Admission {
    pub principal: String,
    pub generation: u64,
    pub drop_session: bool,
    pub note: Option<Item>,
}

/// What becomes of a request with a good token, by its owner and its scopes.
pub open spec fn admission_refusal(
    owner: Option<ItemView>,
    path: Seq<char>,
    granted: Seq<Seq<char>>,
    scope: Option<Seq<char>>,
) -> Option<(u16, Seq<char>)> {
    if owner is None || !owner->Some_0.bool("role_is_active"@, false) {
        Some((401, "invalid token"@))
    } else {
        match api_token::scope_verdict(path, granted, scope) {
            Ok(_) => None,
            Err(why) => Some((403, why)),
        }
    }
}

/// Decides what becomes of a request whose token is good, given the account the
/// token belongs to, the scopes it grants and the scope the request is declared
/// to need.
pub fn let_through(
    record: &Item,
    owner: &Option<Item>,
    path: &str,
    granted: &Vec<String>,
    scope: &Option<String>,
    had_session: bool,
    now: u64,
) -> (r: Result<Admission, TokenRefusal>)
    ensures
        match admission_refusal(
            user_control::opt_item(*owner),
            path@,
            text::views(granted@),
            text_of(*scope),
        ) {
            Some((status, message)) => r is Err && r->Err_0.status == status
                && r->Err_0.message@ == message && r->Err_0.reason@ == (if status == 401 {
                Rejected::OwnerInactive.reason_text()
            } else {
                message
            }),
            None => {
                &&& r is Ok
                &&& r->Ok_0.principal@ == owner->Some_0@.str("email"@, Seq::empty())
                &&& r->Ok_0.generation == user_control::generation(owner->Some_0@)
                &&& r->Ok_0.drop_session == !had_session
                &&& user_control::opt_item(r->Ok_0.note) == api_token::touch_update(record@, now)
            },
        },
{
    proof {
        reveal_strlit("");
        assert(""@ =~= Seq::<char>::empty());
    }
    let usr = match owner {
        Some(u) => u,
        None => {
            return Err(unauthorized("invalid token", Rejected::OwnerInactive.reason()));
        },
    };
    if !usr.safe_bool("role_is_active", false) {
        return Err(unauthorized("invalid token", Rejected::OwnerInactive.reason()));
    }
    let needed: Option<&str> = match scope {
        Some(s) => Some(s.as_str()),
        None => None,
    };
    match scope_allows(path, granted.as_slice(), needed) {
        Ok(_) => {},
        Err(why) => {
            return Err(TokenRefusal { status: 403, message: why.clone(), reason: why });
        },
    }
    Ok(
        Admission {
            principal: usr.safe_str("email", ""),
            generation: session_generation(usr),
            drop_session: !had_session,
            note: touch(record, now),
        },
    )
}

/// Decides what becomes of a request whose token is good, reading the scopes
/// off the record and the collection off the query.
pub fn accept_api_token(
    record: &Item,
    owner: &Option<Item>,
    path: &str,
    query: &str,
    route_scopes: &StrMap<String>,
    collection_scopes: &StrMap<String>,
    had_session: bool,
    now: u64,
) -> (r: Result<Admission, TokenRefusal>)
    ensures
        match admission_refusal(
            user_control::opt_item(*owner),
            path@,
            api_token::granted_by(json::parsed(api_token::scopes_text(record@))),
            declared(
                route_scopes@,
                collection_scopes@,
                path@,
                api_token::named_collection(query::query_tree(query@)),
            ),
        ) {
            Some((status, message)) => r is Err && r->Err_0.status == status
                && r->Err_0.message@ == message && r->Err_0.reason@ == (if status == 401 {
                Rejected::OwnerInactive.reason_text()
            } else {
                message
            }),
            None => {
                &&& r is Ok
                &&& r->Ok_0.principal@ == owner->Some_0@.str("email"@, Seq::empty())
                &&& r->Ok_0.generation == user_control::generation(owner->Some_0@)
                &&& r->Ok_0.drop_session == !had_session
                &&& user_control::opt_item(r->Ok_0.note) == api_token::touch_update(record@, now)
            },
        },
{
    let named = collection_of(query);
    let scope = declared_scope(route_scopes, collection_scopes, path, &named);
    let granted = scopes_of(record);
    let_through(record, owner, path, &granted, &scope, had_session, now)
}

/// A token never outlives its owner's account: while the account is off or
/// gone, no request with the token is let through.
pub proof fn inactive_owner_admits_nothing(
    owner: Option<ItemView>,
    path: Seq<char>,
    granted: Seq<Seq<char>>,
    scope: Option<Seq<char>>,
)
    requires
        owner is None || !owner->Some_0.bool("role_is_active"@, false),
    ensures
        admission_refusal(owner, path, granted, scope) == Some((401u16, "invalid token"@)),
{
}

/// No token reaches a forbidden route, whoever owns it and whatever it grants.
pub proof fn forbidden_routes_admit_nothing(
    owner: Option<ItemView>,
    path: Seq<char>,
    granted: Seq<Seq<char>>,
    scope: Option<Seq<char>>,
)
    requires
        api_token::never(path),
    ensures
        admission_refusal(owner, path, granted, scope) is Some,
{
}

/// A request to a route that is no generic item route is let through, for an owner
/// that is on, just where the token grants the scope that the route declares,
/// whatever the collections declare and whatever the query names.
pub proof fn routes_go_by_their_own_scope(
    owner: ItemView,
    path: Seq<char>,
    granted: Seq<Seq<char>>,
    route_scopes: Map<Seq<char>, Seq<char>>,
    collection_scopes: Map<Seq<char>, Seq<char>>,
    named: Option<Seq<char>>,
)
    requires
        owner.bools.contains_key("role_is_active"@),
        owner.bools["role_is_active"@],
        path != "/itm/list"@,
        path != "/itm/edit"@,
        path != "/itm/del"@,
        path != "/setting/list"@,
        !api_token::never(path),
    ensures
        admission_refusal(
            Some(owner),
            path,
            granted,
            declared(route_scopes, collection_scopes, path, named),
        ) is None <==> route_scopes.contains_key(path) && granted.contains(route_scopes[path]),
        declared(route_scopes, collection_scopes, path, named) == route_scopes.get(path),
{
}

/// A generic item route goes by the collection that the query names and by what is
/// done to it, reading or writing, and never by a scope of the route.
pub proof fn item_routes_go_by_their_collection(
    owner: ItemView,
    path: Seq<char>,
    granted: Seq<Seq<char>>,
    route_scopes: Map<Seq<char>, Seq<char>>,
    collection_scopes: Map<Seq<char>, Seq<char>>,
    c: Seq<char>,
)
    requires
        owner.bools.contains_key("role_is_active"@),
        owner.bools["role_is_active"@],
        path == "/itm/list"@ || path == "/itm/edit"@ || path == "/itm/del"@,
    ensures
        ({
            let key = c + (if path == "/itm/list"@ {
                ":read"@
            } else {
                ":write"@
            });
            &&& declared(route_scopes, collection_scopes, path, Some(c)) == collection_scopes.get(
                key,
            )
            &&& declared(route_scopes, collection_scopes, path, None) is None
            &&& admission_refusal(
                Some(owner),
                path,
                granted,
                declared(route_scopes, collection_scopes, path, Some(c)),
            ) is None <==> collection_scopes.contains_key(key) && granted.contains(
                collection_scopes[key],
            )
        }),
{
    api_token::item_routes_are_open_to_scopes();
    reveal_strlit(":");
    reveal_strlit("read");
    reveal_strlit("write");
    reveal_strlit(":read");
    reveal_strlit(":write");
    assert(c + ":"@ + "read"@ =~= c + ":read"@);
    assert(c + ":"@ + "write"@ =~= c + ":write"@);
    reveal_strlit("/itm/list");
    reveal_strlit("/itm/edit");
    reveal_strlit("/itm/del");
    reveal_strlit("/setting/list");
    assert("/itm/list"@[5] != "/itm/edit"@[5]);
    assert("/itm/list"@[5] != "/itm/del"@[5]);
    assert(path[1] != "/setting/list"@[1]);
}

/// An owner that is on is refused for want of a scope as forbidden, with the
/// reason; one that is off or gone as not signed in, without one.
pub proof fn refusals_have_their_status(
    owner: Option<ItemView>,
    path: Seq<char>,
    granted: Seq<Seq<char>>,
    scope: Option<Seq<char>>,
)
    ensures
        ({
            let r = admission_refusal(owner, path, granted, scope);
            let on = owner is Some && owner->Some_0.bools.contains_key("role_is_active"@)
                && owner->Some_0.bools["role_is_active"@];
            let verdict = api_token::scope_verdict(path, granted, scope);
            &&& !on ==> r == Some((401u16, "invalid token"@))
            &&& on && verdict is Err ==> r == Some((403u16, verdict->Err_0))
            &&& on && verdict is Ok ==> r is None
        }),
{
}

/// A session goes by the number it carries, none counting as the first: it is
/// dropped where the account is in another generation, and where the account is
/// gone and it carries one.
pub proof fn what_drops_a_session(g: u64, usr: Item)
    ensures
        stale(Some(g), UserLookup::Found(usr)) <==> usr@.u64("session_gen"@, 0) != g,
        stale(None, UserLookup::Found(usr)) <==> usr@.u64("session_gen"@, 0) != 0,
        stale(Some(g), UserLookup::Absent),
        !stale(None, UserLookup::Absent),
        !stale(Some(g), UserLookup::Unavailable),
        !stale(None, UserLookup::Unavailable),
{
}

/// A presented token stands just where there is a record, it was not revoked, its
/// time is not up, and the secret is the one it was made of.
pub proof fn what_a_token_stands_on(found: Option<ItemView>, secret: Seq<char>, now: u64)
    ensures
        record_refusal(found, secret, now) is None <==> found is Some && !(
        found->Some_0.bools.contains_key("revoked"@) && found->Some_0.bools["revoked"@]) && (
        found->Some_0.u64("expires"@, 0) == 0 || now < found->Some_0.u64("expires"@, 0))
            && found->Some_0.str("hash"@, Seq::empty()) == api_token::hash_of(secret),
        found is None ==> record_refusal(found, secret, now) == Some(Rejected::Unknown),
{
}

/// A text that may be there is one exactly where it is.
pub proof fn a_text_is_itself(o: Option<String>)
    ensures
        text_of(o) is Some <==> o is Some,
        o is Some ==> text_of(o) == Some(o->Some_0@),
{
}

} // verus!
