//! What a deployment does when it starts, and at every tick after.
use crate::collections::StrMap;
use crate::item::Item;
use crate::state::route_cache;
use crate::text;
use crate::text::{owned, same, split_on};
use vstd::prelude::*;

verus! {

/// The two parts of an entry that a route is registered by: its path and its
/// method. The rest of the entry is looked at when the route is called. An entry
/// without both is passed over.
pub open spec fn registration(entry: Seq<char>) -> Option<(Seq<char>, Seq<char>)> {
    let parts = text::split(entry, ':');
    if parts.len() >= 2 {
        Some((parts[0], parts[1]))
    } else {
        None
    }
}

/// The paths to register and their methods, for a table that is read in an order.
pub open spec fn registrations_read(t: Map<Seq<char>, Seq<char>>, order: Seq<Seq<char>>) -> Map<
    Seq<char>,
    Seq<char>,
>
    decreases order.len(),
{
    if order.len() == 0 {
        Map::empty()
    } else {
        let before = registrations_read(t, order.drop_last());
        match registration(t[order.last()]) {
            Some((path, method)) => before.insert(path, method),
            None => before,
        }
    }
}

/// The paths to register and their methods.
pub fn registrations(internals: &Item, table: &str) -> (r: StrMap<String>)
    ensures
        exists|order: Seq<Seq<char>>| #[trigger]
            route_cache::reading_order(route_cache::table(internals@, table@), order) && r@
                == registrations_read(route_cache::table(internals@, table@), order),
{
    let entries = internals.safe_strstr(table);
    let ghost t = route_cache::table(internals@, table@);
    let ghost all = entries.pairs();
    let ghost order = Seq::new(all.len(), |i: int| all[i].0);
    let n: usize = entries.len();
    let mut out: StrMap<String> = StrMap::new();
    let mut i: usize = 0;
    proof {
        assert(entries@ == t);
        route_cache::order_reads(all, t, order);
        assert(order.take(0) =~= Seq::<Seq<char>>::empty());
    }
    while i < n
        invariant
            i <= n,
            n == all.len(),
            all == entries.pairs(),
            order == Seq::new(all.len(), |i: int| all[i].0),
            route_cache::reading_order(t, order),
            forall|j: int| 0 <= j < n ==> t[#[trigger] order[j]] == all[j].1,
            out@ == registrations_read(t, order.take(i as int)),
        decreases n - i,
    {
        let parts = split_on(entries.value(i).as_str(), ':');
        proof {
            assert(order.take(i + 1).drop_last() =~= order.take(i as int));
            assert(order.take(i + 1).last() == order[i as int]);
            let views = text::views(parts@);
            assert(views.len() == parts@.len());
            if views.len() >= 2 {
                assert(views[0] == parts@[0]@ && views[1] == parts@[1]@);
            }
        }
        if parts.len() >= 2 {
            out.insert(parts[0].clone(), parts[1].clone());
        }
        i = i + 1;
    }
    proof {
        assert(order.take(n as int) =~= order);
    }
    out
}

/// How a route is called.
#[derive(Clone, Copy, PartialEq, Eq, Debug, Structural)]
pub enum Verb {
    Get,
    Post,
}

/// The verb that a method stands for. A route with any other method is not
/// registered.
pub open spec fn verb_named(method: Seq<char>) -> Option<Verb> {
    if method == "post"@ {
        Some(Verb::Post)
    } else if method == "get"@ {
        Some(Verb::Get)
    } else {
        None
    }
}

/// The verb that a method stands for.
pub fn verb_of(method: &str) -> (r: Option<Verb>)
    ensures
        r == verb_named(method@),
{
    if same(method, "post") {
        Some(Verb::Post)
    } else if same(method, "get") {
        Some(Verb::Get)
    } else {
        None
    }
}

/// Whether a database holds anything, by how many items each collection has. One
/// that holds nothing is filled from the files.
pub fn has_data(counts: &Vec<u64>) -> (r: bool)
    ensures
        r == exists|i: int| 0 <= i < counts@.len() && (#[trigger] counts@[i]) > 0,
{
    let mut i: usize = 0;
    while i < counts.len()
        invariant
            i <= counts.len(),
            forall|j: int| 0 <= j < i ==> (#[trigger] counts@[j]) == 0,
        decreases counts.len() - i,
    {
        if counts[i] > 0 {
            return true;
        }
        i = i + 1;
    }
    false
}

/// How the session cookie is set.
pub struct SessionCookie {
    pub name: String,
    pub path: String,
    /// Whether it stays at home on requests from other sites.
    pub same_site_lax: bool,
    /// Whether it is out of reach of scripts.
    pub http_only: bool,
    /// Whether it travels over secure connections alone.
    pub secure: bool,
    /// Whether it is encrypted.
    pub private: bool,
    /// Whether it outlives the browser.
    pub persistent: bool,
}

/// How the session cookie is set. It never travels on requests from other sites,
/// whatever is said of the connection: nothing else stands against forged
/// requests.
pub fn session_cookie(cookie_http_insecure: bool) -> (r: SessionCookie)
    ensures
        r.name@ == "isabelle-cookie"@,
        r.path@ == "/"@,
        r.same_site_lax,
        r.http_only,
        r.secure == !cookie_http_insecure,
        r.private,
        !r.persistent,
{
    SessionCookie {
        name: owned("isabelle-cookie"),
        path: owned("/"),
        same_site_lax: true,
        http_only: true,
        secure: !cookie_http_insecure,
        private: true,
        persistent: false,
    }
}

/// The periodic jobs that are due, given when the next second begins, what time
/// it is, and the second of the minute: every second, and before that every
/// minute where one begins.
pub fn ticks(next: i64, now: i64, second: u32) -> (r: Vec<String>)
    ensures
        text::views(r@) == (if next > now {
            Seq::<Seq<char>>::empty()
        } else if second == 0 {
            seq!["min"@, "sec"@]
        } else {
            seq!["sec"@]
        }),
{
    let mut out: Vec<String> = Vec::new();
    if next <= now {
        if second == 0 {
            out.push(owned("min"));
        }
        out.push(owned("sec"));
    }
    proof {
        assert(text::views(out@) =~= (if next > now {
            Seq::<Seq<char>>::empty()
        } else if second == 0 {
            seq!["min"@, "sec"@]
        } else {
            seq!["sec"@]
        }));
    }
    out
}

/// What became of initial reading of an item by hooks: whether it has to be
/// stored again.
pub fn should_be_saved(answers: &Vec<bool>) -> (r: bool)
    ensures
        r == answers@.contains(true),
{
    let mut i: usize = 0;
    while i < answers.len()
        invariant
            i <= answers.len(),
            forall|j: int| 0 <= j < i ==> !(#[trigger] answers@[j]),
        decreases answers.len() - i,
    {
        if answers[i] {
            proof {
                assert(answers@[i as int] == true);
            }
            return true;
        }
        i = i + 1;
    }
    false
}

/// A route is registered under its path just where the table of the cache, which
/// is read when it is called, has a handler for it, as far as its entry is whole.
pub proof fn registered_routes_have_handlers(entry: Seq<char>)
    requires
        route_cache::path_route(entry) is Some,
    ensures
        registration(entry) is Some,
        registration(entry)->Some_0.0 == route_cache::path_route(entry)->Some_0.0,
{
}

/// A route is registered under the first part of its entry, by the method that is the
/// second, and methods are two words.
pub proof fn what_is_registered(a: Seq<char>, b: Seq<char>, method: Seq<char>)
    requires
        !a.contains(':'),
        !b.contains(':'),
    ensures
        registration(a + seq![':'] + b) == Some((a, b)),
        registration(a) is None,
        verb_named(method) == Some(Verb::Post) <==> method == "post"@,
        verb_named(method) == Some(Verb::Get) <==> method == "get"@,
{
    text::split_of_two(a, b, ':');
    text::split_of_two(b, a, ':');
    assert(text::split(a + seq![':'] + b, ':') =~= seq![a, b]);
    reveal_strlit("post");
    reveal_strlit("get");
    assert("post"@.len() != "get"@.len());
}

/// Every path that is registered is one of an entry, with a method that an entry gives
/// it.
pub proof fn registrations_come_from_entries(
    t: Map<Seq<char>, Seq<char>>,
    order: Seq<Seq<char>>,
    path: Seq<char>,
)
    ensures
        registrations_read(t, order).contains_key(path) <==> exists|i: int|
            0 <= i < order.len() && (#[trigger] registration(t[order[i]])) is Some && registration(
                t[order[i]],
            )->Some_0.0 == path,
        registrations_read(t, order).contains_key(path) ==> exists|i: int|
            0 <= i < order.len() && #[trigger] registration(t[order[i]]) == Some(
                (path, registrations_read(t, order)[path]),
            ),
    decreases order.len(),
{
    if order.len() > 0 {
        let head = order.drop_last();
        registrations_come_from_entries(t, head, path);
        let n = order.len() - 1;
        assert(order[n] == order.last());
        assert forall|i: int| 0 <= i < head.len() implies #[trigger] head[i] == order[i] by {}
        if registrations_read(t, head).contains_key(path) {
            let i = choose|i: int|
                0 <= i < head.len() && #[trigger] registration(t[head[i]]) == Some(
                    (path, registrations_read(t, head)[path]),
                );
            assert(registration(t[order[i]]) == Some((path, registrations_read(t, head)[path])));
        }
        if registration(t[order.last()]) is Some && registration(t[order.last()])->Some_0.0
            == path {
            assert(registration(t[order[n]]) is Some);
        }
        if exists|i: int|
            0 <= i < order.len() && (#[trigger] registration(t[order[i]])) is Some && registration(
                t[order[i]],
            )->Some_0.0 == path {
            let i = choose|i: int|
                0 <= i < order.len() && (#[trigger] registration(t[order[i]])) is Some
                    && registration(t[order[i]])->Some_0.0 == path;
            if i < head.len() {
                assert(registration(t[head[i]]) is Some);
            }
        }
    }
}

} // verus!
