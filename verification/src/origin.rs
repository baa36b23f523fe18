//! Which origins may call the API.
//!
//! An origin is a scheme, a host and, where it is not the usual one, a port, just
//! as a browser sends it; the comparison is character by character.
use crate::text;
use crate::text::{cat3, chars_of, owned, piece, same, to_lower, trim};
use vstd::prelude::*;

verus! {

/// The first place from `i` on where a text stands in another; one past the last
/// place where there is none.
pub open spec fn first_at(p: Seq<char>, s: Seq<char>, i: int) -> int
    decreases s.len() + 1 - i,
{
    if i > s.len() - p.len() || i < 0 {
        s.len() as int + 1
    } else if text::occurs_at(p, s, i) {
        i
    } else {
        first_at(p, s, i + 1)
    }
}

/// What stands before and behind the first occurrence of a text.
pub open spec fn cut(s: Seq<char>, p: Seq<char>) -> Option<(Seq<char>, Seq<char>)> {
    let i = first_at(p, s, 0);
    if i <= s.len() {
        Some((s.take(i), s.skip(i + p.len())))
    } else {
        None
    }
}

fn stands_at(cs: &Vec<char>, ps: &Vec<char>, i: usize) -> (r: bool)
    requires
        i + ps@.len() <= cs@.len(),
    ensures
        r == text::occurs_at(ps@, cs@, i as int),
{
    let n: usize = cs.len();
    let mut j: usize = 0;
    while j < ps.len()
        invariant
            j <= ps.len(),
            i + ps@.len() <= n,
            n == cs@.len(),
            forall|x: int| 0 <= x < j ==> cs@[i + x] == #[trigger] ps@[x],
        decreases ps.len() - j,
    {
        if cs[i + j] != ps[j] {
            proof {
                assert(cs@.subrange(i as int, i + ps@.len())[j as int] == cs@[i + j]);
            }
            return false;
        }
        j = j + 1;
    }
    proof {
        assert(cs@.subrange(i as int, i + ps@.len()) =~= ps@);
    }
    true
}

/// What stands before and behind the first occurrence of a text.
pub fn cut_at(s: &str, p: &str) -> (r: Option<(String, String)>)
    ensures
        match r {
            Some((a, b)) => cut(s@, p@) == Some((a@, b@)),
            None => cut(s@, p@) is None,
        },
{
    let cs = chars_of(s);
    let ps = chars_of(p);
    let mut i: usize = 0;
    while ps.len() <= cs.len() && i <= cs.len() - ps.len()
        invariant
            cs@ == s@,
            ps@ == p@,
            i <= cs@.len() + 1,
            first_at(p@, s@, 0) == first_at(p@, s@, i as int),
        decreases cs@.len() + 1 - i,
    {
        if stands_at(&cs, &ps, i) {
            let a = piece(&cs, 0, i);
            let b = piece(&cs, i + ps.len(), cs.len());
            proof {
                assert(a@ =~= s@.take(i as int));
                assert(b@ =~= s@.skip(i + p@.len()));
            }
            return Some((a, b));
        }
        if i == cs.len() {
            proof {
                assert(first_at(p@, s@, i + 1) == s@.len() + 1);
            }
            return None;
        }
        i = i + 1;
    }
    None
}

/// Whether a character ends the host.
pub open spec fn ends_host(c: char) -> bool {
    c == '/' || c == '?' || c == '#'
}

/// What stands before the first character that ends the host.
pub open spec fn host_part(s: Seq<char>) -> Seq<char>
    decreases s.len(),
{
    if s.len() == 0 || ends_host(s[0]) {
        Seq::empty()
    } else {
        seq![s[0]] + host_part(s.skip(1))
    }
}

fn host_of(s: &str) -> (r: String)
    ensures
        r@ == host_part(s@),
{
    let cs = chars_of(s);
    let mut i: usize = 0;
    proof {
        assert(s@.skip(0) =~= s@);
        assert(s@.take(0) + host_part(s@) =~= host_part(s@));
    }
    while i < cs.len() && cs[i] != '/' && cs[i] != '?' && cs[i] != '#'
        invariant
            i <= cs.len(),
            cs@ == s@,
            host_part(s@) == s@.take(i as int) + host_part(s@.skip(i as int)),
        decreases cs.len() - i,
    {
        proof {
            let rest = s@.skip(i as int);
            assert(rest[0] == s@[i as int]);
            assert(rest.skip(1) =~= s@.skip(i + 1));
            assert(s@.take(i as int) + (seq![s@[i as int]] + host_part(s@.skip(i + 1))) =~= s@.take(
                i + 1,
            ) + host_part(s@.skip(i + 1)));
        }
        i = i + 1;
    }
    proof {
        if i < cs@.len() {
            assert(s@.skip(i as int)[0] == s@[i as int]);
        }
        assert(host_part(s@.skip(i as int)) =~= Seq::<char>::empty());
        assert(host_part(s@) =~= s@.subrange(0, i as int));
    }
    piece(&cs, 0, i)
}

/// The port that a scheme goes by where none is given, as it would stand behind a
/// host; nothing where the scheme is another.
pub open spec fn usual_port(scheme: Seq<char>) -> Seq<char> {
    if scheme == "http"@ {
        ":80"@
    } else if scheme == "https"@ {
        ":443"@
    } else {
        Seq::empty()
    }
}

/// Whether a text ends with another.
pub open spec fn ends_with(s: Seq<char>, p: Seq<char>) -> bool {
    p.len() <= s.len() && s.skip(s.len() - p.len()) == p
}

/// A host without dots at its end and without the usual port.
pub open spec fn plain_host(h: Seq<char>, port: Seq<char>) -> Seq<char>
    decreases h.len(),
{
    if h.len() > 0 && h.last() == '.' {
        plain_host(h.drop_last(), port)
    } else if port.len() > 0 && ends_with(h, port) {
        plain_host(h.take(h.len() - port.len()), port)
    } else {
        h
    }
}

fn plain_host_of(h: &str, port: &str) -> (r: String)
    ensures
        r@ == plain_host(h@, port@),
{
    let cs = chars_of(h);
    let ps = chars_of(port);
    let mut n: usize = cs.len();
    proof {
        assert(h@.take(n as int) =~= h@);
    }
    loop
        invariant
            n <= cs.len(),
            cs@ == h@,
            ps@ == port@,
            plain_host(h@, port@) == plain_host(h@.take(n as int), port@),
        decreases n,
    {
        let ghost head = h@.take(n as int);
        if n > 0 && cs[n - 1] == '.' {
            proof {
                assert(head.last() == '.');
                assert(head.drop_last() =~= h@.take(n - 1));
            }
            n = n - 1;
        } else if ps.len() > 0 && ps.len() <= n && stands_at(&cs, &ps, n - ps.len()) {
            proof {
                let at = n - ps@.len();
                assert(head.skip(at) =~= h@.subrange(at, n as int));
                assert(head.take(at) =~= h@.take(at));
            }
            n = n - ps.len();
        } else {
            proof {
                if n > 0 {
                    assert(head.last() == cs@[n - 1]);
                }
                if ps@.len() > 0 && ps@.len() <= n {
                    let at = n - ps@.len();
                    assert(head.skip(at) =~= h@.subrange(at, n as int));
                }
                assert(head =~= h@.subrange(0, n as int));
            }
            return piece(&cs, 0, n);
        }
    }
}

/// What a setting that names an origin comes to in the form that a browser
/// sends, where it names one: a scheme, a host, and a port where it is not the
/// usual one of the scheme.
pub open spec fn normalized(raw: Seq<char>) -> Option<Seq<char>> {
    match cut(text::trimmed(raw), "://"@) {
        Some((scheme, rest)) => {
            let said = text::lowered(scheme);
            let host = plain_host(host_part(rest), usual_port(said));
            if scheme.len() == 0 || host.len() == 0 {
                None
            } else {
                Some(said + "://"@ + host)
            }
        },
        None => None,
    }
}

/// Reduces a setting that names an origin to the form that a browser sends.
pub fn normalize_origin(raw: &str) -> (r: Option<String>)
    ensures
        match r {
            Some(o) => normalized(raw@) == Some(o@),
            None => normalized(raw@) is None,
        },
{
    let trimmed = trim(raw);
    match cut_at(trimmed.as_str(), "://") {
        Some((scheme, rest)) => {
            if scheme.as_str().is_empty() {
                return None;
            }
            let said = to_lower(scheme.as_str());
            let port = if same(said.as_str(), "http") {
                ":80"
            } else if same(said.as_str(), "https") {
                ":443"
            } else {
                proof {
                    reveal_strlit("");
                    assert(""@ =~= Seq::<char>::empty());
                }
                ""
            };
            let host = plain_host_of(host_of(rest.as_str()).as_str(), port);
            if host.as_str().is_empty() {
                return None;
            }
            Some(cat3(said.as_str(), "://", host.as_str()))
        },
        None => None,
    }
}

proof fn first_at_range(p: Seq<char>, s: Seq<char>, i: int)
    requires
        i >= 0,
    ensures
        first_at(p, s, i) == s.len() + 1 || i <= first_at(p, s, i) <= s.len() - p.len(),
    decreases s.len() + 1 - i,
{
    if i <= s.len() - p.len() && !text::occurs_at(p, s, i) {
        first_at_range(p, s, i + 1);
    }
}

proof fn first_at_before(p: Seq<char>, s: Seq<char>, i: int, j: int)
    requires
        0 <= i <= j < first_at(p, s, i),
    ensures
        !text::occurs_at(p, s, j),
    decreases s.len() + 1 - i,
{
    if i <= s.len() - p.len() && !text::occurs_at(p, s, i) && i < j {
        first_at_before(p, s, i + 1, j);
    }
}

proof fn first_at_is(p: Seq<char>, s: Seq<char>, i: int, n: int)
    requires
        0 <= i <= n,
        text::occurs_at(p, s, n),
        forall|j: int| i <= j < n ==> !(#[trigger] text::occurs_at(p, s, j)),
    ensures
        first_at(p, s, i) == n,
    decreases n - i,
{
    if i < n {
        first_at_is(p, s, i + 1, n);
    }
}

proof fn host_part_is(s: Seq<char>)
    ensures
        host_part(s).len() <= s.len(),
        host_part(s) == s.take(host_part(s).len() as int),
        forall|i: int| 0 <= i < host_part(s).len() ==> !ends_host(#[trigger] host_part(s)[i]),
    decreases s.len(),
{
    let h = host_part(s);
    if s.len() > 0 && !ends_host(s[0]) {
        let rest = host_part(s.skip(1));
        host_part_is(s.skip(1));
        assert(h =~= s.take(h.len() as int)) by {
            assert forall|i: int| 0 <= i < h.len() implies h[i] == s[i] by {
                if i > 0 {
                    assert(h[i] == rest[i - 1]);
                    assert(s.skip(1).take(rest.len() as int)[i - 1] == s[i]);
                }
            }
        }
        assert forall|i: int| 0 <= i < h.len() implies !ends_host(#[trigger] h[i]) by {
            if i > 0 {
                assert(h[i] == rest[i - 1]);
            }
        }
    } else {
        assert(h =~= s.take(0));
    }
}

proof fn host_part_whole(s: Seq<char>)
    requires
        forall|i: int| 0 <= i < s.len() ==> !ends_host(#[trigger] s[i]),
    ensures
        host_part(s) == s,
    decreases s.len(),
{
    if s.len() > 0 {
        assert forall|i: int| 0 <= i < s.skip(1).len() implies !ends_host(#[trigger] s.skip(1)[i]) by {
            assert(s.skip(1)[i] == s[i + 1]);
        }
        host_part_whole(s.skip(1));
        assert(seq![s[0]] + s.skip(1) =~= s);
    } else {
        assert(host_part(s) =~= s);
    }
}

proof fn plain_host_is(h: Seq<char>, port: Seq<char>)
    ensures
        plain_host(h, port).len() <= h.len(),
        plain_host(h, port) == h.take(plain_host(h, port).len() as int),
        plain_host(plain_host(h, port), port) == plain_host(h, port),
        plain_host(h, port).len() > 0 ==> plain_host(h, port).last() != '.',
    decreases h.len(),
{
    let r = plain_host(h, port);
    if h.len() > 0 && h.last() == '.' {
        plain_host_is(h.drop_last(), port);
        assert(h.drop_last().take(r.len() as int) =~= h.take(r.len() as int));
    } else if port.len() > 0 && ends_with(h, port) {
        let head = h.take(h.len() - port.len());
        plain_host_is(head, port);
        assert(head.take(r.len() as int) =~= h.take(r.len() as int));
    } else {
        assert(h.take(h.len() as int) =~= h);
    }
}

/// Whether a scheme in lower case stays as it is, and can be told from what
/// follows it.
pub open spec fn settled_scheme(s: Seq<char>) -> bool {
    &&& s.len() > 0
    &&& text::lowered(s) == s
    &&& !text::white_space(s[0])
    &&& forall|j: int| !(#[trigger] text::occurs_at("://"@, s, j))
}

proof fn ascii_scheme_settles(scheme: Seq<char>)
    requires
        vstd::utf8::is_ascii_chars(scheme),
        scheme.len() > 0,
        !text::white_space(scheme[0]),
        forall|j: int| !(#[trigger] text::occurs_at("://"@, scheme, j)),
    ensures
        settled_scheme(text::lowered(scheme)),
{
    reveal_strlit("://");
    let s = text::lowered(scheme);
    assert forall|i: int| 0 <= i < s.len() implies 0 <= (#[trigger] s[i]) < 128 by {
        assert(0 <= scheme[i] < 128);
    }
    assert(vstd::utf8::is_ascii_chars(s));
    assert(text::lowered(s) =~= s);
    assert forall|j: int| !(#[trigger] text::occurs_at("://"@, s, j)) by {
        if text::occurs_at("://"@, s, j) {
            let here = s.subrange(j, j + 3);
            assert(here[0] == ':' && here[1] == '/' && here[2] == '/');
            assert(s[j] == ':' && s[j + 1] == '/' && s[j + 2] == '/');
            assert(scheme.subrange(j, j + 3) =~= "://"@);
            assert(text::occurs_at("://"@, scheme, j));
        }
    }
}

/// What comes out of normalizing is the scheme in lower case, the separator, and a
/// host with nothing behind it; whatever the setting was. Nothing comes out where
/// there is no separator, no scheme or no host.
pub proof fn an_origin_is_scheme_and_host(raw: Seq<char>)
    ensures
        normalized(raw) is None <==> ({
            ||| cut(text::trimmed(raw), "://"@) is None
            ||| cut(text::trimmed(raw), "://"@)->Some_0.0.len() == 0
            ||| plain_host(
                host_part(cut(text::trimmed(raw), "://"@)->Some_0.1),
                usual_port(text::lowered(cut(text::trimmed(raw), "://"@)->Some_0.0)),
            ).len() == 0
        }),
        normalized(raw) is Some ==> ({
            let (scheme, rest) = cut(text::trimmed(raw), "://"@)->Some_0;
            let h = plain_host(host_part(rest), usual_port(text::lowered(scheme)));
            &&& normalized(raw) == Some(text::lowered(scheme) + "://"@ + h)
            &&& h.len() > 0
            &&& h.last() != '.'
            &&& forall|i: int| 0 <= i < h.len() ==> !ends_host(#[trigger] h[i])
        }),
{
    if normalized(raw) is Some {
        let (scheme, rest) = cut(text::trimmed(raw), "://"@)->Some_0;
        let port = usual_port(text::lowered(scheme));
        let h = plain_host(host_part(rest), port);
        host_part_is(rest);
        plain_host_is(host_part(rest), port);
        assert forall|i: int| 0 <= i < h.len() implies !ends_host(#[trigger] h[i]) by {
            assert(host_part(rest).take(h.len() as int)[i] == host_part(rest)[i]);
        }
    }
}

/// Normalizing an origin twice is normalizing it once, and what comes out is a
/// scheme in lower case, the separator, and a host with nothing behind it. White
/// space may stand around what is normalized, but not in it. Of a scheme that is
/// not ASCII it is taken that its lower case stays as it is.
pub proof fn normalizing_settles(raw: Seq<char>)
    requires
        normalized(raw) is Some,
        forall|i: int|
            0 <= i < text::trimmed(raw).len() ==> !text::white_space(
                #[trigger] text::trimmed(raw)[i],
            ),
        ({
            let scheme = cut(text::trimmed(raw), "://"@)->Some_0.0;
            vstd::utf8::is_ascii_chars(scheme) || settled_scheme(text::lowered(scheme))
        }),
    ensures
        normalized(normalized(raw)->Some_0) == normalized(raw),
        ({
            let (scheme, rest) = cut(text::trimmed(raw), "://"@)->Some_0;
            let s = text::lowered(scheme);
            let h = plain_host(host_part(rest), usual_port(s));
            &&& normalized(raw) == Some(s + "://"@ + h)
            &&& s.len() > 0
            &&& text::lowered(s) == s
            &&& h.len() > 0
            &&& h.last() != '.'
            &&& forall|i: int| 0 <= i < h.len() ==> !ends_host(#[trigger] h[i])
        }),
{
    reveal_strlit("://");
    let p = "://"@;
    let t = text::trimmed(raw);
    let (scheme, rest) = cut(t, p)->Some_0;
    let at = first_at(p, t, 0);
    let s = text::lowered(scheme);
    let port = usual_port(s);
    let h = plain_host(host_part(rest), port);
    let o = s + p + h;
    first_at_range(p, t, 0);
    host_part_is(rest);
    plain_host_is(host_part(rest), port);
    assert(scheme[0] == t[0]);
    assert forall|j: int| !(#[trigger] text::occurs_at(p, scheme, j)) by {
        if text::occurs_at(p, scheme, j) {
            assert(t.subrange(j, j + 3) =~= scheme.subrange(j, j + 3));
            first_at_before(p, t, 0, j);
        }
    }
    if vstd::utf8::is_ascii_chars(scheme) {
        ascii_scheme_settles(scheme);
    }
    assert forall|i: int| 0 <= i < h.len() implies !ends_host(#[trigger] h[i]) && h[i] == rest[i] by {
        assert(host_part(rest).take(h.len() as int)[i] == host_part(rest)[i]);
        assert(rest.take(host_part(rest).len() as int)[i] == rest[i]);
    }
    assert(o[0] == s[0]);
    assert(o.last() == h.last());
    assert(h.last() == h[h.len() - 1]);
    assert(!text::white_space(o.last())) by {
        let n = h.len() - 1;
        assert(rest[n] == t[at + 3 + n]);
    }
    text::trimmed_fixed(o);
    assert(o.subrange(s.len() as int, s.len() as int + 3) =~= p);
    assert(text::occurs_at(p, o, s.len() as int));
    assert forall|j: int| 0 <= j < s.len() implies !(#[trigger] text::occurs_at(p, o, j)) by {
        if text::occurs_at(p, o, j) {
            let here = o.subrange(j, j + 3);
            assert(here[0] == o[j] && here[1] == o[j + 1] && here[2] == o[j + 2]);
            assert(o[s.len() as int] == ':');
            assert(j + 3 <= s.len());
            assert(s.subrange(j, j + 3) =~= here);
            assert(text::occurs_at(p, s, j));
        }
    }
    first_at_is(p, o, 0, s.len() as int);
    assert(o.take(s.len() as int) =~= s);
    assert(o.skip(s.len() as int + 3) =~= h);
    host_part_whole(h);
}

/// What stands before the last occurrence of a character; all of it where there
/// is none.
pub open spec fn before_last(s: Seq<char>, c: char) -> Seq<char>
    decreases s.len(),
{
    if s.contains(c) {
        if s.last() == c {
            s.drop_last()
        } else {
            before_last(s.drop_last(), c)
        }
    } else {
        s
    }
}

fn head_before(s: &str, c: char) -> (r: String)
    ensures
        r@ == before_last(s@, c),
{
    let cs = chars_of(s);
    let n: usize = cs.len();
    let mut i: usize = n;
    proof {
        assert(s@.take(n as int) =~= s@);
    }
    while i > 0 && cs[i - 1] != c
        invariant
            i <= n,
            n == cs@.len(),
            cs@ == s@,
            forall|j: int| i <= j < n ==> s@[j] != c,
            s@.contains(c) ==> before_last(s@, c) == before_last(s@.take(i as int), c)
                && s@.take(i as int).contains(c),
        decreases i,
    {
        proof {
            let head = s@.take(i as int);
            assert(head.drop_last() =~= s@.take(i - 1));
            assert(head.last() == s@[i - 1]);
            if s@.contains(c) {
                let j = choose|j: int| 0 <= j < head.len() && head[j] == c;
                assert(s@.take(i - 1)[j] == c);
            }
        }
        i = i - 1;
    }
    if i == 0 {
        proof {
            if s@.contains(c) {
                let j = choose|j: int| 0 <= j < s@.len() && s@[j] == c;
            }
        }
        return owned(s);
    }
    proof {
        assert(s@[i - 1] == c);
        let head = s@.take(i as int);
        assert(head.last() == c);
        assert(head.drop_last() =~= s@.subrange(0, i - 1));
    }
    piece(&cs, 0, i - 1)
}

/// A host without its port. A host in brackets has colons of its own, and a port
/// only behind them.
pub open spec fn without_port(h: Seq<char>) -> Seq<char> {
    if h.len() > 0 && h[0] == '[' && h.last() == ']' {
        h
    } else {
        before_last(h, ':')
    }
}

fn drop_port(h: &str) -> (r: String)
    ensures
        r@ == without_port(h@),
{
    let cs = chars_of(h);
    if cs.len() > 0 && cs[0] == '[' && cs[cs.len() - 1] == ']' {
        owned(h)
    } else {
        head_before(h, ':')
    }
}

/// Whether an origin can only be the developer's own machine.
pub open spec fn loopback(origin: Seq<char>) -> bool {
    match cut(origin, "://"@) {
        Some((scheme, rest)) => {
            let host = without_port(host_part(rest));
            (scheme == "http"@ || scheme == "https"@) && (host == "localhost"@ || host
                == "127.0.0.1"@ || host == "[::1]"@ || host == "::1"@)
        },
        None => false,
    }
}

/// Whether an origin can only be the developer's own machine, on any port.
pub fn is_loopback_origin(origin: &str) -> (r: bool)
    ensures
        r == loopback(origin@),
{
    match cut_at(origin, "://") {
        Some((scheme, rest)) => {
            if !same(scheme.as_str(), "http") && !same(scheme.as_str(), "https") {
                return false;
            }
            let host = drop_port(host_of(rest.as_str()).as_str());
            same(host.as_str(), "localhost") || same(host.as_str(), "127.0.0.1") || same(
                host.as_str(),
                "[::1]",
            ) || same(host.as_str(), "::1")
        },
        None => false,
    }
}

/// What one setting adds to the origins that are allowed.
pub enum Listed {
    Origin(String),
    /// Nothing was set.
    Nothing,
    /// What was set names no origin; the operator is told.
    Malformed,
}

/// What one setting adds to the origins that are allowed.
pub fn listed(raw: &str) -> (r: Listed)
    ensures
        match normalized(raw@) {
            Some(o) => r matches Listed::Origin(x) && x@ == o,
            None => if text::trimmed(raw@).len() == 0 {
                r is Nothing
            } else {
                r is Malformed
            },
        },
{
    match normalize_origin(raw) {
        Some(o) => Listed::Origin(o),
        None => if trim(raw).as_str().is_empty() {
            Listed::Nothing
        } else {
            Listed::Malformed
        },
    }
}

/// Whether a deployment lets an origin call it: it is one of those that are set,
/// or the run is one for development and the origin is the machine's own.
pub open spec fn allowed(origin: Seq<char>, set: Seq<Seq<char>>, dev_mode: bool) -> bool {
    (dev_mode && loopback(origin)) || exists|i: int|
        0 <= i < set.len() && (#[trigger] normalized(set[i])) == Some(origin)
}

/// Whether a deployment lets an origin call it. `set` is the public address and
/// every further origin that was set.
pub fn origin_is_allowed(origin: &str, set: &Vec<String>, dev_mode: bool) -> (r: bool)
    ensures
        r == allowed(origin@, text::views(set@), dev_mode),
{
    if dev_mode && is_loopback_origin(origin) {
        return true;
    }
    let ghost all = text::views(set@);
    let mut i: usize = 0;
    while i < set.len()
        invariant
            i <= set.len(),
            all == text::views(set@),
            forall|j: int| 0 <= j < i ==> (#[trigger] normalized(all[j])) != Some(origin@),
        decreases set.len() - i,
    {
        match normalize_origin(set[i].as_str()) {
            Some(o) => {
                if same(o.as_str(), origin) {
                    proof {
                        assert(normalized(all[i as int]) == Some(origin@));
                    }
                    return true;
                }
            },
            None => {},
        }
        i = i + 1;
    }
    false
}

/// Outside of development, what is not set is not allowed.
pub proof fn nothing_else_is_allowed(origin: Seq<char>, set: Seq<Seq<char>>)
    requires
        allowed(origin, set, false),
    ensures
        exists|i: int| 0 <= i < set.len() && (#[trigger] normalized(set[i])) == Some(origin),
{
}

/// In development the machine's own origins are allowed, on every port and with either
/// scheme; what is set is allowed always, and in production nothing else is.
pub proof fn which_origins_are_allowed(origin: Seq<char>, set: Seq<Seq<char>>, i: int)
    ensures
        0 <= i < set.len() && normalized(set[i]) == Some(origin) ==> allowed(origin, set, false)
            && allowed(origin, set, true),
        loopback(origin) ==> allowed(origin, set, true),
        allowed(origin, set, false) ==> exists|j: int|
            0 <= j < set.len() && (#[trigger] normalized(set[j])) == Some(origin),
        allowed(origin, set, true) && !loopback(origin) ==> allowed(origin, set, false),
{
}

proof fn no_separator_before(scheme: Seq<char>, rest: Seq<char>)
    requires
        !scheme.contains(':'),
    ensures
        cut(scheme + "://"@ + rest, "://"@) == Some((scheme, rest)),
{
    reveal_strlit("://");
    let p = "://"@;
    let s = scheme + p + rest;
    let n = scheme.len() as int;
    assert(s.subrange(n, n + 3) =~= p);
    assert(text::occurs_at(p, s, n));
    assert forall|j: int| 0 <= j < n implies !(#[trigger] text::occurs_at(p, s, j)) by {
        if text::occurs_at(p, s, j) {
            assert(s.subrange(j, j + 3)[0] == s[j]);
            assert(s[j] == scheme[j]);
            assert(scheme.contains(scheme[j]));
        }
    }
    first_at_is(p, s, 0, n);
    assert(s.take(n) =~= scheme);
    assert(s.skip(n + 3) =~= rest);
}

/// An origin is the machine's own where its scheme is one of the web's and its host,
/// without its port, is one of the names that a machine has for itself.
pub proof fn which_origins_are_the_own(scheme: Seq<char>, host: Seq<char>, port: Seq<char>)
    requires
        !scheme.contains(':'),
        !port.contains(':'),
        !port.contains(']'),
        port.len() > 0,
        forall|i: int| 0 <= i < host.len() ==> !ends_host(#[trigger] host[i]),
        forall|i: int| 0 <= i < port.len() ==> !ends_host(#[trigger] port[i]),
    ensures
        loopback(scheme + "://"@ + (host + seq![':'] + port)) <==> (scheme == "http"@ || scheme
            == "https"@) && (host == "localhost"@ || host == "127.0.0.1"@ || host == "[::1]"@
            || host == "::1"@),
        !host.contains(':') ==> (loopback(scheme + "://"@ + host) <==> (scheme == "http"@ || scheme
            == "https"@) && (host == "localhost"@ || host == "127.0.0.1"@)),
{
    let with = host + seq![':'] + port;
    no_separator_before(scheme, with);
    no_separator_before(scheme, host);
    assert forall|i: int| 0 <= i < with.len() implies !ends_host(#[trigger] with[i]) by {
        if i < host.len() {
            assert(with[i] == host[i]);
        } else if i > host.len() {
            assert(with[i] == port[i - host.len() - 1]);
        }
    }
    host_part_whole(with);
    host_part_whole(host);
    assert(with.last() == port.last());
    assert(port.contains(port.last()));
    before_last_is(host, port, ':');
    if !host.contains(':') {
        reveal_strlit("[::1]");
        reveal_strlit("::1");
        assert("[::1]"@[1] == ':' && "::1"@[0] == ':');
        assert("[::1]"@.contains(':') && "::1"@.contains(':'));
        assert(without_port(host) == host);
    }
}

proof fn before_last_is(a: Seq<char>, b: Seq<char>, c: char)
    requires
        !b.contains(c),
    ensures
        before_last(a + seq![c] + b, c) == a,
    decreases b.len(),
{
    let s = a + seq![c] + b;
    assert(s[a.len() as int] == c);
    if b.len() == 0 {
        assert(s.drop_last() =~= a);
    } else {
        let t = b.drop_last();
        assert(!t.contains(c)) by {
            if t.contains(c) {
                let i = choose|i: int| 0 <= i < t.len() && t[i] == c;
                assert(b[i] == c);
            }
        }
        assert(b.contains(b.last()));
        assert(s.last() == b.last());
        assert(s.drop_last() =~= a + seq![c] + t);
        before_last_is(a, t, c);
    }
}

/// The usual port of a scheme is left out, any other is kept, and so is the host.
pub proof fn which_ports_are_left_out(host: Seq<char>, port: Seq<char>)
    ensures
        usual_port("http"@) == ":80"@,
        usual_port("https"@) == ":443"@,
        forall|scheme: Seq<char>|
            scheme != "http"@ && scheme != "https"@ ==> (#[trigger] usual_port(scheme)).len() == 0,
        port.len() > 0 && host.len() > 0 && host.last() != '.' && port.last() != '.' && !ends_with(
            host,
            port,
        ) ==> plain_host(host + port, port) == host && plain_host(host, port) == host,
        host.len() > 0 && host.last() != '.' ==> plain_host(host, Seq::empty()) == host,
{
    reveal_strlit("http");
    reveal_strlit("https");
    assert("http"@.len() != "https"@.len());
    let s = host + port;
    if port.len() > 0 {
        assert(s.last() == port.last());
        assert(s.take(s.len() - port.len()) =~= host);
        assert(s.skip(s.len() - port.len()) =~= port);
        assert(ends_with(s, port));
        if host.len() > 0 && host.last() != '.' && port.last() != '.' && !ends_with(host, port) {
            assert(plain_host(host, port) == host);
            assert(plain_host(s, port) == plain_host(host, port));
        }
    }
}

/// A host ends before the first character that begins a path, a query or a fragment.
pub proof fn where_a_host_ends(host: Seq<char>, c: char, rest: Seq<char>)
    requires
        !host.contains('/'),
        !host.contains('?'),
        !host.contains('#'),
        c == '/' || c == '?' || c == '#',
    ensures
        host_part(host + seq![c] + rest) == host,
        host_part(host) == host,
    decreases host.len(),
{
    let s = host + seq![c] + rest;
    if host.len() == 0 {
        assert(s[0] == c);
        assert(host_part(s) =~= host);
    } else {
        let tail = host.skip(1);
        assert(host.contains(host[0]));
        assert forall|x: char| tail.contains(x) implies host.contains(x) by {
            let i = choose|i: int| 0 <= i < tail.len() && tail[i] == x;
            assert(host[i + 1] == x);
        }
        where_a_host_ends(tail, c, rest);
        assert(s.skip(1) =~= tail + seq![c] + rest);
        assert(s[0] == host[0]);
        assert(seq![host[0]] + tail =~= host);
    }
}

/// A plain host ends neither with a dot nor with the usual port, and is a start of the
/// host.
pub proof fn how_a_plain_host_ends(h: Seq<char>, port: Seq<char>)
    ensures
        plain_host(h, port).is_prefix_of(h),
        plain_host(h, port).len() > 0 ==> plain_host(h, port).last() != '.',
        port.len() > 0 ==> !ends_with(plain_host(h, port), port),
    decreases h.len(),
{
    if h.len() > 0 && h.last() == '.' {
        let rest = h.drop_last();
        how_a_plain_host_ends(rest, port);
        let r = plain_host(h, port);
        assert(h.take(r.len() as int) =~= rest.take(r.len() as int));
    } else if port.len() > 0 && ends_with(h, port) {
        let rest = h.take(h.len() - port.len());
        how_a_plain_host_ends(rest, port);
        let r = plain_host(h, port);
        assert(h.take(r.len() as int) =~= rest.take(r.len() as int));
    } else {
        assert(h.take(h.len() as int) =~= h);
    }
}

} // verus!
