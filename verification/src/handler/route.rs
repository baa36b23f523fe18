//! Finding the plugin that a request is for, and what it is handed.
use crate::collections::StrMap;
use crate::handler::web_response::{conv_response, Sent, WebResponse};
use crate::state::route_cache::RouteCache;
use crate::text;
use crate::text::{same, text_of, to_ascii_lower};
use vstd::prelude::*;

verus! {

/// Why a request's body could not be read.
#[derive(Debug, PartialEq)]
pub enum ReadError {
    /// It is larger than this deployment takes; this much had come by then.
    TooLarge(usize),
    Malformed(String),
    /// It had not come within the deadline.
    TimedOut,
}

impl ReadError {
    /// The status that the request is answered with.
    pub fn status(&self) -> (r: u16)
        ensures
            r == (if self is TooLarge {
                413u16
            } else {
                400u16
            }),
    {
        match self {
            ReadError::TooLarge(_) => 413,
            _ => 400,
        }
    }
}

/// How much has come, after some more; as much as can be counted where it is
/// more than that.
pub open spec fn grown(total: usize, more: usize) -> usize {
    if total + more > usize::MAX {
        usize::MAX
    } else {
        (total + more) as usize
    }
}

/// Counts some more of a body in, unless it is then larger than it may be.
pub fn count_in(total: usize, more: usize, max_bytes: usize) -> (r: Result<usize, ReadError>)
    ensures
        if grown(total, more) > max_bytes {
            r matches Err(ReadError::TooLarge(n)) && n == grown(total, more)
        } else {
            r matches Ok(n) && n == grown(total, more)
        },
{
    let now: usize = total.saturating_add(more);
    if now > max_bytes {
        Err(ReadError::TooLarge(now))
    } else {
        Ok(now)
    }
}

/// The handler of a route that needs a session.
pub fn url_route(cache: &RouteCache, path: &str) -> (r: Option<String>)
    ensures
        match r {
            Some(h) => cache.url_routes@.contains_key(path@) && h@ == cache.url_routes@[path@],
            None => !cache.url_routes@.contains_key(path@),
        },
{
    match cache.url_routes.get(path) {
        Some(h) => Some(h.clone()),
        None => None,
    }
}

/// The handler of a route that is open to everyone.
pub fn url_unprotected_route(cache: &RouteCache, path: &str) -> (r: Option<String>)
    ensures
        match r {
            Some(h) => cache.unprotected_url_routes@.contains_key(path@) && h@
                == cache.unprotected_url_routes@[path@],
            None => !cache.unprotected_url_routes@.contains_key(path@),
        },
{
    match cache.unprotected_url_routes.get(path) {
        Some(h) => Some(h.clone()),
        None => None,
    }
}

/// The handler of a route that takes a raw body.
pub fn url_rest_route(cache: &RouteCache, path: &str) -> (r: Option<String>)
    ensures
        match r {
            Some(h) => cache.rest_routes@.contains_key(path@) && h@ == cache.rest_routes@[path@],
            None => !cache.rest_routes@.contains_key(path@),
        },
{
    match cache.rest_routes.get(path) {
        Some(h) => Some(h.clone()),
        None => None,
    }
}

/// Whether a header carries a credential.
pub open spec fn withheld(name: Seq<char>) -> bool {
    name == "cookie"@ || name == "authorization"@ || name == "proxy-authorization"@
}

/// Headers as a plugin sees them: names in small letters, without those that
/// carry credentials or are no text. Of a name that comes again, the last counts.
pub open spec fn headers_seen(headers: Seq<(String, Option<String>)>) -> Map<Seq<char>, Seq<char>>
    decreases headers.len(),
{
    if headers.len() == 0 {
        Map::empty()
    } else {
        let before = headers_seen(headers.drop_last());
        let name = text::ascii_lower(headers.last().0@);
        match headers.last().1 {
            Some(v) => if withheld(name) {
                before
            } else {
                before.insert(name, v@)
            },
            None => before,
        }
    }
}

/// Headers as a plugin sees them. A header whose value is no text comes without
/// one.
pub fn plugin_headers(headers: &Vec<(String, Option<String>)>) -> (r: StrMap<String>)
    ensures
        r@ == headers_seen(headers@),
{
    let mut out: StrMap<String> = StrMap::new();
    let mut i: usize = 0;
    proof {
        assert(headers@.take(0) =~= Seq::<(String, Option<String>)>::empty());
    }
    while i < headers.len()
        invariant
            i <= headers.len(),
            out@ == headers_seen(headers@.take(i as int)),
        decreases headers.len() - i,
    {
        proof {
            assert(headers@.take(i + 1).drop_last() =~= headers@.take(i as int));
            assert(headers@.take(i + 1).last() == headers@[i as int]);
        }
        let name = to_ascii_lower(headers[i].0.as_str());
        if !same(name.as_str(), "cookie") && !same(name.as_str(), "authorization") && !same(
            name.as_str(),
            "proxy-authorization",
        ) {
            match &headers[i].1 {
                Some(v) => {
                    out.insert(name, v.clone());
                },
                None => {},
            }
        }
        i = i + 1;
    }
    proof {
        assert(headers@.take(headers@.len() as int) =~= headers@);
    }
    out
}

/// No plugin ever sees a credential.
pub proof fn credentials_are_withheld(headers: Seq<(String, Option<String>)>, name: Seq<char>)
    requires
        withheld(name),
    ensures
        !headers_seen(headers).contains_key(name),
    decreases headers.len(),
{
    if headers.len() > 0 {
        credentials_are_withheld(headers.drop_last(), name);
    }
}

/// What becomes of a request with a raw body.
#[derive(Debug, PartialEq)]
pub enum RestStep {
    /// It is answered with a bare status.
    Refuse(u16),
    /// A handler is called with the text of the body.
    Call { handler: String, body: String },
}

/// What becomes of a request with a raw body, given what became of reading it. A
/// body that is no text is refused before anybody is looked for who takes it.
pub fn url_generic_rest_route(
    cache: &RouteCache,
    path: &str,
    read: Result<Vec<u8>, ReadError>,
) -> (r: RestStep)
    ensures
        match read {
            Err(e) => r == RestStep::Refuse(
                if e is TooLarge {
                    413
                } else {
                    400
                },
            ),
            Ok(bytes) => if !vstd::utf8::valid_utf8(bytes@) {
                r == RestStep::Refuse(400)
            } else if cache.rest_routes@.contains_key(path@) {
                r matches RestStep::Call { handler, body } && handler@ == cache.rest_routes@[path@]
                    && body@ == vstd::utf8::decode_utf8(bytes@)
            } else {
                r == RestStep::Refuse(404)
            },
        },
{
    match read {
        Err(e) => RestStep::Refuse(e.status()),
        Ok(bytes) => match text_of(bytes) {
            None => RestStep::Refuse(400),
            Some(body) => match url_rest_route(cache, path) {
                Some(handler) => RestStep::Call { handler, body },
                None => RestStep::Refuse(404),
            },
        },
    }
}

/// What is sent for the answer of a plugin that takes raw bodies. One that asks
/// for a session gets an error where none could be opened.
pub fn rest_response(resp: WebResponse, session_failed: bool, file_exists: bool) -> (r: Sent)
    requires
        !(resp is NotImplemented),
    ensures
        resp is Login && session_failed ==> r == Sent::Status(500),
        resp is Login && !session_failed ==> r == Sent::Status(200),
        resp is Success || resp is Logout || resp is OkFile ==> r == Sent::Status(200),
        resp is OkData ==> r == Sent::Text(resp->OkData_0),
        resp is OkFilePath ==> r == (if file_exists {
            Sent::File(resp->OkFilePath_1)
        } else {
            Sent::Status(404)
        }),
        resp is NotFound ==> r == Sent::Status(404),
        resp is Unauthorized ==> r == Sent::Status(401),
        resp is BadRequest ==> r == Sent::Status(400),
        resp is Forbidden ==> r == Sent::Status(403),
{
    match &resp {
        WebResponse::Login(_) => {
            if session_failed {
                return Sent::Status(500);
            }
        },
        _ => {},
    }
    conv_response(resp, file_exists)
}

/// A header that carries a credential is withheld however its name is spelled, and any
/// other header that is a text is handed over under its name in small letters; of one
/// that comes again the last counts.
pub proof fn which_headers_are_handed_over(
    headers: Seq<(String, Option<String>)>,
    name: String,
    value: String,
    other: Seq<char>,
)
    ensures
        ({
            let low = text::ascii_lower(name@);
            let seen = headers_seen(headers.push((name, Some(value))));
            let secret = low == "cookie"@ || low == "authorization"@ || low
                == "proxy-authorization"@;
            &&& secret ==> seen == headers_seen(headers) && !seen.contains_key(low)
            &&& !secret ==> seen.contains_key(low) && seen[low] == value@
            &&& other != low ==> seen.get(other) == headers_seen(headers).get(other)
        }),
        headers_seen(headers.push((name, None))) == headers_seen(headers),
{
    let low = text::ascii_lower(name@);
    assert(headers.push((name, Some(value))).drop_last() =~= headers);
    assert(headers.push((name, None)).drop_last() =~= headers);
    if withheld(low) {
        credentials_are_withheld(headers, low);
    }
}

/// What has come is counted together, up to what can be counted.
pub proof fn how_bodies_grow(total: usize, more: usize)
    ensures
        total + more <= usize::MAX ==> grown(total, more) == total + more,
        total + more > usize::MAX ==> grown(total, more) == usize::MAX,
        grown(total, more) >= total,
{
}

} // verus!
