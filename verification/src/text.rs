//! Strings as sequences of characters.
//!
//! Contracts speak of `s@`, the sequence of characters of a string. The
//! functions here are the few text operations the rest of the crate is built
//! from, each with an exact meaning over such sequences.
use vstd::prelude::*;

verus! {

// ---------------------------------------------------------------------------
// What std gives
// ---------------------------------------------------------------------------

/// `String::push`: appends one character to the end of the string.
pub assume_specification[ String::push ](s: &mut String, ch: char)
    ensures
        final(s)@ == old(s)@.push(ch),
;

/// The characters with the Unicode property `White_Space`.
pub open spec fn white_space(c: char) -> bool {
    ||| '\u{9}' <= c <= '\u{d}'
    ||| c == '\u{20}'
    ||| c == '\u{85}'
    ||| c == '\u{a0}'
    ||| c == '\u{1680}'
    ||| '\u{2000}' <= c <= '\u{200a}'
    ||| c == '\u{2028}'
    ||| c == '\u{2029}'
    ||| c == '\u{202f}'
    ||| c == '\u{205f}'
    ||| c == '\u{3000}'
}

/// `char::is_whitespace`: whether the character has the Unicode property
/// `White_Space`.
pub assume_specification[ char::is_whitespace ](c: char) -> (r: bool)
    ensures
        r == white_space(c),
;

/// The control characters: Unicode general category `Cc`.
pub open spec fn control_char(c: char) -> bool {
    c <= '\u{1f}' || '\u{7f}' <= c <= '\u{9f}'
}

/// `char::is_control`: whether the character is in the Unicode general
/// category `Cc`.
pub assume_specification[ char::is_control ](c: char) -> (r: bool)
    ensures
        r == control_char(c),
;

// ---------------------------------------------------------------------------
// Between strings and vectors of characters
// ---------------------------------------------------------------------------

/// The characters of a string, in order.
pub fn chars_of(s: &str) -> (r: Vec<char>)
    ensures
        r@ == s@,
{
    let mut r: Vec<char> = Vec::new();
    for c in it: s.chars()
        invariant
            it.seq() == s@,
            r@ == s@.take(it.index()),
    {
        r.push(c);
    }
    r
}

/// Whether two strings hold the same characters.
pub fn same(a: &str, b: &str) -> (r: bool)
    ensures
        r == (a@ == b@),
{
    let x = a.to_owned();
    let y = b.to_owned();
    x == y
}


/// The sequences of characters of a sequence of strings.
pub open spec fn views(v: Seq<String>) -> Seq<Seq<char>> {
    Seq::new(v.len(), |i: int| v[i]@)
}

/// A string with the same characters, for a borrowed one.
pub fn owned(s: &str) -> (r: String)
    ensures
        r@ == s@,
{
    s.to_owned()
}

/// The characters from `from` up to `to`, as a string.
pub fn piece(cs: &Vec<char>, from: usize, to: usize) -> (r: String)
    requires
        from <= to <= cs.len(),
    ensures
        r@ == cs@.subrange(from as int, to as int),
{
    let mut r = String::new();
    let mut i: usize = from;
    while i < to
        invariant
            from <= i <= to <= cs.len(),
            r@ == cs@.subrange(from as int, i as int),
        decreases to - i,
    {
        r.push(cs[i]);
        i = i + 1;
        assert(cs@.subrange(from as int, i as int) =~= cs@.subrange(from as int, i - 1).push(
            cs@[i - 1],
        ));
    }
    r
}

/// Two texts, one after the other.
pub fn cat(a: &str, b: &str) -> (r: String)
    ensures
        r@ == a@ + b@,
{
    let mut r = owned(a);
    r.append(b);
    r
}

/// Three texts, one after the other.
pub fn cat3(a: &str, b: &str, c: &str) -> (r: String)
    ensures
        r@ == a@ + b@ + c@,
{
    let mut r = cat(a, b);
    r.append(c);
    r
}

/// Four texts, one after the other.
pub fn cat4(a: &str, b: &str, c: &str, d: &str) -> (r: String)
    ensures
        r@ == a@ + b@ + c@ + d@,
{
    let mut r = cat3(a, b, c);
    r.append(d);
    r
}

/// Five texts, one after the other.
pub fn cat5(a: &str, b: &str, c: &str, d: &str, e: &str) -> (r: String)
    ensures
        r@ == a@ + b@ + c@ + d@ + e@,
{
    let mut r = cat4(a, b, c, d);
    r.append(e);
    r
}

// ---------------------------------------------------------------------------
// Trimming
// ---------------------------------------------------------------------------

/// A sequence without its leading white space.
pub open spec fn trimmed_start(s: Seq<char>) -> Seq<char>
    decreases s.len(),
{
    if s.len() > 0 && white_space(s[0]) {
        trimmed_start(s.drop_first())
    } else {
        s
    }
}

/// A sequence without its trailing white space.
pub open spec fn trimmed_end(s: Seq<char>) -> Seq<char>
    decreases s.len(),
{
    if s.len() > 0 && white_space(s.last()) {
        trimmed_end(s.drop_last())
    } else {
        s
    }
}

/// A sequence without its leading and trailing white space.
pub open spec fn trimmed(s: Seq<char>) -> Seq<char> {
    trimmed_end(trimmed_start(s))
}

/// The string without its leading and trailing white space.
pub fn trim(s: &str) -> (r: String)
    ensures
        r@ == trimmed(s@),
{
    let cs = chars_of(s);
    let n: usize = cs.len();
    let mut from: usize = 0;
    proof {
        assert(s@.skip(0) =~= s@);
    }
    while from < n && cs[from].is_whitespace()
        invariant
            n == cs.len(),
            cs@ == s@,
            from <= n,
            trimmed_start(s@) == trimmed_start(s@.skip(from as int)),
        decreases n - from,
    {
        proof {
            assert(s@.skip(from as int).drop_first() =~= s@.skip(from + 1));
        }
        from = from + 1;
    }
    let mut to: usize = n;
    proof {
        assert(s@.skip(from as int) =~= s@.subrange(from as int, to as int));
        assert(trimmed_start(s@) == s@.subrange(from as int, to as int));
    }
    while to > from && cs[to - 1].is_whitespace()
        invariant
            n == cs.len(),
            cs@ == s@,
            from <= to <= n,
            trimmed(s@) == trimmed_end(s@.subrange(from as int, to as int)),
        decreases to,
    {
        proof {
            assert(s@.subrange(from as int, to as int).drop_last() =~= s@.subrange(
                from as int,
                to - 1,
            ));
        }
        to = to - 1;
    }
    piece(&cs, from, to)
}

/// A sequence without the `c`s at its end.
pub open spec fn without_trailing(s: Seq<char>, c: char) -> Seq<char>
    decreases s.len(),
{
    if s.len() > 0 && s.last() == c {
        without_trailing(s.drop_last(), c)
    } else {
        s
    }
}

/// The string without the `c`s at its end.
pub fn trim_end_char(s: &str, c: char) -> (r: String)
    ensures
        r@ == without_trailing(s@, c),
{
    let cs = chars_of(s);
    let mut to: usize = cs.len();
    proof {
        assert(s@.take(s@.len() as int) =~= s@);
    }
    while to > 0 && cs[to - 1] == c
        invariant
            cs@ == s@,
            to <= cs.len(),
            without_trailing(s@, c) == without_trailing(s@.take(to as int), c),
        decreases to,
    {
        proof {
            assert(s@.take(to as int).drop_last() =~= s@.take(to - 1));
        }
        to = to - 1;
    }
    proof {
        assert(s@.take(to as int) =~= s@.subrange(0, to as int));
    }
    piece(&cs, 0, to)
}

/// Trimming leaves no white space at either end.
pub proof fn trimmed_ends(s: Seq<char>)
    ensures
        trimmed(s).len() > 0 ==> !white_space(trimmed(s)[0]) && !white_space(trimmed(s).last()),
{
    trimmed_start_head(s);
    trimmed_end_last(trimmed_start(s));
    trimmed_end_prefix(trimmed_start(s));
}

proof fn trimmed_start_head(s: Seq<char>)
    ensures
        trimmed_start(s).len() > 0 ==> !white_space(trimmed_start(s)[0]),
    decreases s.len(),
{
    if s.len() > 0 && white_space(s[0]) {
        trimmed_start_head(s.drop_first());
    }
}

proof fn trimmed_end_last(s: Seq<char>)
    ensures
        trimmed_end(s).len() > 0 ==> !white_space(trimmed_end(s).last()),
    decreases s.len(),
{
    if s.len() > 0 && white_space(s.last()) {
        trimmed_end_last(s.drop_last());
    }
}

proof fn trimmed_end_prefix(s: Seq<char>)
    ensures
        trimmed_end(s).len() <= s.len(),
        trimmed_end(s) == s.take(trimmed_end(s).len() as int),
    decreases s.len(),
{
    if s.len() > 0 && white_space(s.last()) {
        trimmed_end_prefix(s.drop_last());
        assert(s.drop_last().take(trimmed_end(s).len() as int) =~= s.take(
            trimmed_end(s).len() as int,
        ));
    } else {
        assert(s.take(s.len() as int) =~= s);
    }
}

/// A sequence with no white space at its ends is its own trimming.
pub proof fn trimmed_fixed(s: Seq<char>)
    requires
        s.len() > 0 ==> !white_space(s[0]) && !white_space(s.last()),
    ensures
        trimmed(s) == s,
{
}

/// Trimming twice is trimming once.
pub proof fn trimmed_twice(s: Seq<char>)
    ensures
        trimmed(trimmed(s)) == trimmed(s),
{
    trimmed_ends(s);
    trimmed_fixed(trimmed(s));
}

// ---------------------------------------------------------------------------
// Finding, cutting and splitting
// ---------------------------------------------------------------------------

/// The first position of `c` at or after `i`, or the length when there is none.
pub open spec fn position(s: Seq<char>, c: char, i: int) -> int
    decreases s.len() - i,
{
    if i < 0 || i >= s.len() {
        s.len() as int
    } else if s[i] == c {
        i
    } else {
        position(s, c, i + 1)
    }
}

/// What `position` finds: no earlier occurrence, and an occurrence unless it
/// is the length.
pub proof fn position_is_first(s: Seq<char>, c: char, i: int)
    requires
        0 <= i <= s.len(),
    ensures
        i <= position(s, c, i) <= s.len(),
        position(s, c, i) < s.len() ==> s[position(s, c, i)] == c,
        forall|j: int| i <= j < position(s, c, i) ==> s[j] != c,
    decreases s.len() - i,
{
    if i < s.len() && s[i] != c {
        position_is_first(s, c, i + 1);
    }
}

/// The first position is the only one with those properties.
pub proof fn position_unique(s: Seq<char>, c: char, i: int, p: int)
    requires
        0 <= i <= p <= s.len(),
        p < s.len() ==> s[p] == c,
        forall|j: int| i <= j < p ==> s[j] != c,
    ensures
        position(s, c, i) == p,
    decreases s.len() - i,
{
    if i < p {
        position_unique(s, c, i + 1, p);
    }
}

/// The first position of `c` at or after `i`, or the length.
pub fn find(cs: &Vec<char>, c: char, i: usize) -> (p: usize)
    requires
        i <= cs.len(),
    ensures
        p == position(cs@, c, i as int),
        i <= p <= cs.len(),
{
    let mut j: usize = i;
    while j < cs.len() && cs[j] != c
        invariant
            i <= j <= cs.len(),
            position(cs@, c, i as int) == position(cs@, c, j as int),
        decreases cs.len() - j,
    {
        j = j + 1;
    }
    j
}

/// Whether the character occurs.
pub fn has_char(s: &str, c: char) -> (r: bool)
    ensures
        r == s@.contains(c),
{
    let cs = chars_of(s);
    let p: usize = find(&cs, c, 0);
    proof {
        position_is_first(s@, c, 0);
        if p < cs.len() {
            assert(s@[p as int] == c);
        }
    }
    p < cs.len()
}

/// The two sides of the first occurrence of `c`, where there is one.
pub open spec fn split_once(s: Seq<char>, c: char) -> Option<(Seq<char>, Seq<char>)> {
    let p = position(s, c, 0);
    if p < s.len() {
        Some((s.take(p), s.skip(p + 1)))
    } else {
        None
    }
}

/// The two sides of the first occurrence of `c`, where there is one.
pub fn cut_once(s: &str, c: char) -> (r: Option<(String, String)>)
    ensures
        match r {
            Some(p) => split_once(s@, c) == Some((p.0@, p.1@)),
            None => split_once(s@, c) is None,
        },
{
    let cs = chars_of(s);
    let p: usize = find(&cs, c, 0);
    if p < cs.len() {
        let left = piece(&cs, 0, p);
        let right = piece(&cs, p + 1, cs.len());
        proof {
            assert(s@.subrange(0, p as int) =~= s@.take(p as int));
            assert(s@.subrange(p + 1, s@.len() as int) =~= s@.skip(p + 1));
        }
        Some((left, right))
    } else {
        None
    }
}

/// The pieces between the occurrences of `c`; never empty.
pub open spec fn split(s: Seq<char>, c: char) -> Seq<Seq<char>>
    decreases s.len(),
{
    let p = position(s, c, 0);
    if p < s.len() {
        proof {
            position_is_first(s, c, 0);
        }
        seq![s.take(p)] + split(s.skip(p + 1), c)
    } else {
        seq![s]
    }
}

/// The pieces between the occurrences of `c`.
pub fn split_on(s: &str, c: char) -> (r: Vec<String>)
    ensures
        views(r@) == split(s@, c),
        r.len() >= 1,
{
    let cs = chars_of(s);
    let mut r: Vec<String> = Vec::new();
    let mut from: usize = 0;
    proof {
        assert(s@.skip(0) =~= s@);
        assert(views(r@) + split(s@.skip(0), c) =~= split(s@, c));
    }
    loop
        invariant_except_break
            views(r@) + split(s@.skip(from as int), c) == split(s@, c),
        invariant
            cs@ == s@,
            from <= cs.len(),
        ensures
            views(r@) == split(s@, c),
            r.len() >= 1,
        decreases cs.len() - from,
    {
        let p: usize = find(&cs, c, from);
        let ghost rest = s@.skip(from as int);
        proof {
            position_is_first(s@, c, from as int);
            position_unique(rest, c, 0, p - from);
            assert(s@.subrange(from as int, p as int) =~= rest.take(p - from));
        }
        let ghost before = views(r@);
        r.push(piece(&cs, from, p));
        proof {
            assert(views(r@) =~= before.push(rest.take(p - from)));
        }
        if p == cs.len() {
            proof {
                assert(rest.take(p - from) =~= rest);
                assert(views(r@) =~= before + seq![rest]);
            }
            break;
        }
        proof {
            assert(rest.skip(p - from + 1) =~= s@.skip(p + 1));
            assert(before + (seq![rest.take(p - from)] + split(s@.skip(p + 1), c)) =~= views(r@)
                + split(s@.skip(p + 1), c));
        }
        from = p + 1;
    }
    r
}

/// Whether the string begins with these characters.
pub fn starts_with(s: &str, p: &str) -> (r: bool)
    ensures
        r == p@.is_prefix_of(s@),
{
    let cs = chars_of(s);
    let ps = chars_of(p);
    if ps.len() > cs.len() {
        return false;
    }
    let mut i: usize = 0;
    while i < ps.len()
        invariant
            cs@ == s@,
            ps@ == p@,
            ps.len() <= cs.len(),
            i <= ps.len(),
            forall|j: int| 0 <= j < i ==> ps@[j] == cs@[j],
        decreases ps.len() - i,
    {
        if cs[i] != ps[i] {
            proof {
                assert(s@.subrange(0, p@.len() as int)[i as int] != p@[i as int]);
            }
            return false;
        }
        i = i + 1;
    }
    proof {
        assert(p@ =~= s@.subrange(0, p@.len() as int));
    }
    true
}

/// Whether the first character is `c`.
pub open spec fn begins(s: Seq<char>, c: char) -> bool {
    s.len() > 0 && s[0] == c
}

/// Whether the first character is `c`.
pub fn begins_with(s: &str, c: char) -> (r: bool)
    ensures
        r == begins(s@, c),
{
    if s.is_empty() {
        return false;
    }
    s.get_char(0) == c
}

/// What follows the prefix, where the string has it.
pub open spec fn without_prefix(s: Seq<char>, p: Seq<char>) -> Option<Seq<char>> {
    if p.is_prefix_of(s) {
        Some(s.skip(p.len() as int))
    } else {
        None
    }
}

/// What follows the prefix, where the string has it.
pub fn strip_prefix(s: &str, p: &str) -> (r: Option<String>)
    ensures
        match r {
            Some(t) => without_prefix(s@, p@) == Some(t@),
            None => without_prefix(s@, p@) is None,
        },
{
    if !starts_with(s, p) {
        return None;
    }
    let cs = chars_of(s);
    let ps = chars_of(p);
    let t = piece(&cs, ps.len(), cs.len());
    proof {
        assert(s@.subrange(p@.len() as int, s@.len() as int) =~= s@.skip(p@.len() as int));
    }
    Some(t)
}

/// Whether `p` occurs somewhere in `s`.
pub open spec fn occurs_in(p: Seq<char>, s: Seq<char>) -> bool {
    exists|i: int| #[trigger] occurs_at(p, s, i)
}

/// Whether `p` occurs in `s` at `i`.
pub open spec fn occurs_at(p: Seq<char>, s: Seq<char>, i: int) -> bool {
    0 <= i && i + p.len() <= s.len() && s.subrange(i, i + p.len()) == p
}

/// Whether the second string occurs in the first.
pub fn has_text(s: &str, p: &str) -> (r: bool)
    ensures
        r == occurs_in(p@, s@),
{
    let cs = chars_of(s);
    let ps = chars_of(p);
    let m: usize = ps.len();
    if m > cs.len() {
        return false;
    }
    let last: usize = cs.len() - m;
    let mut i: usize = 0;
    loop
        invariant
            cs@ == s@,
            ps@ == p@,
            m == ps.len(),
            last == cs.len() - m,
            m <= cs.len(),
            i <= last,
            forall|j: int| 0 <= j < i ==> !#[trigger] occurs_at(p@, s@, j),
        decreases last - i,
    {
        let mut k: usize = 0;
        while k < m && cs[i + k] == ps[k]
            invariant
                cs@ == s@,
                ps@ == p@,
                m == ps.len(),
                k <= m,
                i + m <= cs.len(),
                forall|j: int| 0 <= j < k ==> ps@[j] == cs@[i + j],
            decreases m - k,
        {
            k = k + 1;
        }
        if k == m {
            proof {
                assert(s@.subrange(i as int, i + m) =~= p@);
                assert(occurs_at(p@, s@, i as int));
            }
            return true;
        }
        proof {
            assert(s@.subrange(i as int, i + m)[k as int] != p@[k as int]);
            assert(!occurs_at(p@, s@, i as int));
        }
        if i == last {
            return false;
        }
        i = i + 1;
    }
}


/// A text without `c` occurs in a sequence exactly when it occurs in one of the
/// pieces between the occurrences of `c`.
pub proof fn occurs_in_pieces(p: Seq<char>, s: Seq<char>, c: char)
    requires
        p.len() > 0,
        !p.contains(c),
    ensures
        occurs_in(p, s) <==> exists|i: int|
            0 <= i < split(s, c).len() && occurs_in(p, #[trigger] split(s, c)[i]),
    decreases s.len(),
{
    let at = position(s, c, 0);
    position_is_first(s, c, 0);
    let pieces = split(s, c);
    if at < s.len() {
        let left = s.take(at);
        let right = s.skip(at + 1);
        occurs_in_pieces(p, right, c);
        assert(pieces =~= seq![left] + split(right, c));
        if occurs_in(p, s) {
            let i = choose|i: int| #[trigger] occurs_at(p, s, i);
            if i + p.len() <= at {
                assert(left.subrange(i, i + p.len()) =~= s.subrange(i, i + p.len()));
                assert(occurs_at(p, left, i));
                assert(occurs_in(p, pieces[0]));
            } else if i > at {
                let j = i - at - 1;
                assert(right.subrange(j, j + p.len()) =~= s.subrange(i, i + p.len()));
                assert(occurs_at(p, right, j));
                let k = choose|k: int|
                    0 <= k < split(right, c).len() && occurs_in(p, #[trigger] split(right, c)[k]);
                assert(pieces[k + 1] == split(right, c)[k]);
            } else {
                assert(s.subrange(i, i + p.len())[at - i] == c);
                assert(p.contains(c));
            }
        }
        if exists|i: int| 0 <= i < pieces.len() && occurs_in(p, #[trigger] pieces[i]) {
            let i = choose|i: int| 0 <= i < pieces.len() && occurs_in(p, #[trigger] pieces[i]);
            if i == 0 {
                let j = choose|j: int| #[trigger] occurs_at(p, left, j);
                assert(left.subrange(j, j + p.len()) =~= s.subrange(j, j + p.len()));
                assert(occurs_at(p, s, j));
            } else {
                assert(pieces[i] == split(right, c)[i - 1]);
                assert(occurs_in(p, right));
                let j = choose|j: int| #[trigger] occurs_at(p, right, j);
                let q = j + at + 1;
                assert(right.subrange(j, j + p.len()) =~= s.subrange(q, q + p.len()));
                assert(occurs_at(p, s, q));
            }
        }
    } else {
        assert(pieces[0] == s);
    }
}

// ---------------------------------------------------------------------------
// Letter case
// ---------------------------------------------------------------------------

/// An ASCII capital turned into its small letter; any other character itself.
pub open spec fn ascii_small(c: char) -> char {
    if 'A' <= c <= 'Z' {
        (c as u32 + 32) as char
    } else {
        c
    }
}

/// A sequence with its ASCII capitals turned into small letters.
pub open spec fn ascii_lower(s: Seq<char>) -> Seq<char> {
    Seq::new(s.len(), |i: int| ascii_small(s[i]))
}

fn small(c: char) -> (r: char)
    ensures
        r == ascii_small(c),
{
    if 'A' <= c && c <= 'Z' {
        ((c as u8) + 32) as char
    } else {
        c
    }
}

/// The string with its ASCII capitals turned into small letters.
pub fn to_ascii_lower(s: &str) -> (r: String)
    ensures
        r@ == ascii_lower(s@),
{
    let mut r = String::new();
    for c in it: s.chars()
        invariant
            it.seq() == s@,
            r@ == ascii_lower(s@.take(it.index())),
    {
        proof {
            assert(ascii_lower(s@.take(it.index() + 1)) =~= ascii_lower(s@.take(it.index())).push(
                ascii_small(s@[it.index()]),
            ));
        }
        r.push(small(c));
    }
    proof {
        assert(s@.take(s@.len() as int) =~= s@);
    }
    r
}

/// Whether two strings differ in nothing but the case of ASCII letters.
pub fn same_ignoring_ascii_case(a: &str, b: &str) -> (r: bool)
    ensures
        r == (ascii_lower(a@) == ascii_lower(b@)),
{
    to_ascii_lower(a) == to_ascii_lower(b)
}

/// What `str::to_lowercase` makes of a string.
pub uninterp spec fn lowercased(s: Seq<char>) -> Seq<char>;

/// `str::to_lowercase`: the Unicode lower case of the string. Of a string of
/// ASCII characters alone it is the string with its capitals turned into small
/// letters.
#[verifier::external_body]
pub(crate) fn to_lower(s: &str) -> (r: String)
    ensures
        r@ == lowercased(s@),
        s.is_ascii() ==> r@ == ascii_lower(s@),
{
    s.to_lowercase()
}

/// The lower case of a string: of one of ASCII characters alone the string with
/// its capitals turned into small letters, of any other what `str::to_lowercase`
/// makes of it.
pub open spec fn lowered(s: Seq<char>) -> Seq<char> {
    if vstd::utf8::is_ascii_chars(s) {
        ascii_lower(s)
    } else {
        lowercased(s)
    }
}

/// An ASCII small letter turned into its capital; any other character itself.
pub open spec fn ascii_capital(c: char) -> char {
    if 'a' <= c <= 'z' {
        (c as u32 - 32) as char
    } else {
        c
    }
}

/// A sequence with its ASCII small letters turned into capitals.
pub open spec fn ascii_upper(s: Seq<char>) -> Seq<char> {
    Seq::new(s.len(), |i: int| ascii_capital(s[i]))
}

/// What `str::to_uppercase` makes of a string.
pub uninterp spec fn uppercased(s: Seq<char>) -> Seq<char>;

/// `str::to_uppercase`: the Unicode upper case of the string. Of a string of
/// ASCII characters alone it is the string with its small letters turned into
/// capitals.
#[verifier::external_body]
pub(crate) fn to_upper(s: &str) -> (r: String)
    ensures
        r@ == uppercased(s@),
        s.is_ascii() ==> r@ == ascii_upper(s@),
{
    s.to_uppercase()
}

/// The upper case of a string: of one of ASCII characters alone the string with
/// its small letters turned into capitals, of any other what `str::to_uppercase`
/// makes of it.
pub open spec fn uppered(s: Seq<char>) -> Seq<char> {
    if vstd::utf8::is_ascii_chars(s) {
        ascii_upper(s)
    } else {
        uppercased(s)
    }
}

// ---------------------------------------------------------------------------
// Order
// ---------------------------------------------------------------------------

/// The order of strings: by the first character in which they differ, a prefix
/// before what extends it.
pub open spec fn precedes(a: Seq<char>, b: Seq<char>) -> bool
    decreases a.len(),
{
    if b.len() == 0 {
        false
    } else if a.len() == 0 {
        true
    } else if a[0] == b[0] {
        precedes(a.drop_first(), b.drop_first())
    } else {
        a[0] < b[0]
    }
}

/// Whether the first string comes before the second.
pub fn before(a: &str, b: &str) -> (r: bool)
    ensures
        r == precedes(a@, b@),
{
    let x = chars_of(a);
    let y = chars_of(b);
    let mut i: usize = 0;
    proof {
        assert(a@.skip(0) =~= a@);
        assert(b@.skip(0) =~= b@);
    }
    while i < x.len() && i < y.len() && x[i] == y[i]
        invariant
            x@ == a@,
            y@ == b@,
            i <= x.len(),
            i <= y.len(),
            precedes(a@, b@) == precedes(a@.skip(i as int), b@.skip(i as int)),
        decreases x.len() - i,
    {
        proof {
            assert(a@.skip(i as int).drop_first() =~= a@.skip(i + 1));
            assert(b@.skip(i as int).drop_first() =~= b@.skip(i + 1));
        }
        i = i + 1;
    }
    if i == y.len() {
        false
    } else if i == x.len() {
        true
    } else {
        x[i] < y[i]
    }
}

/// No sequence precedes itself.
pub proof fn precedes_irreflexive(a: Seq<char>)
    ensures
        !precedes(a, a),
    decreases a.len(),
{
    if a.len() > 0 {
        precedes_irreflexive(a.drop_first());
    }
}

/// The order is transitive.
pub proof fn precedes_transitive(a: Seq<char>, b: Seq<char>, c: Seq<char>)
    requires
        precedes(a, b),
        precedes(b, c),
    ensures
        precedes(a, c),
    decreases a.len(),
{
    if a.len() > 0 && a[0] == b[0] && b[0] == c[0] {
        precedes_transitive(a.drop_first(), b.drop_first(), c.drop_first());
    }
}

/// Of two different sequences one precedes the other.
pub proof fn precedes_total(a: Seq<char>, b: Seq<char>)
    ensures
        a == b || precedes(a, b) || precedes(b, a),
    decreases a.len(),
{
    if a.len() > 0 && b.len() > 0 {
        if a[0] == b[0] {
            precedes_total(a.drop_first(), b.drop_first());
            if a.drop_first() == b.drop_first() {
                assert(a =~= seq![a[0]] + a.drop_first());
                assert(b =~= seq![b[0]] + b.drop_first());
            }
        }
    } else if a.len() == 0 && b.len() == 0 {
        assert(a =~= b);
    }
}

/// Whether a sequence of texts is in order.
pub open spec fn in_order(s: Seq<Seq<char>>) -> bool {
    forall|i: int, j: int|
        #![trigger s[i], s[j]]
        0 <= i < j < s.len() ==> !precedes(s[j], s[i])
}

/// A sequence with a text put before the first one that it precedes.
pub open spec fn inserted(s: Seq<Seq<char>>, x: Seq<char>) -> Seq<Seq<char>>
    decreases s.len(),
{
    if s.len() == 0 {
        seq![x]
    } else if precedes(x, s[0]) {
        seq![x] + s
    } else {
        seq![s[0]] + inserted(s.drop_first(), x)
    }
}

/// A sequence of texts, in order.
pub open spec fn sorted(s: Seq<Seq<char>>) -> Seq<Seq<char>>
    decreases s.len(),
{
    if s.len() == 0 {
        Seq::empty()
    } else {
        inserted(sorted(s.drop_last()), s.last())
    }
}

/// What putting a text into an ordered sequence gives.
proof fn inserted_in_order(s: Seq<Seq<char>>, x: Seq<char>)
    requires
        in_order(s),
    ensures
        in_order(inserted(s, x)),
        inserted(s, x).len() == s.len() + 1,
        inserted(s, x).to_multiset() == s.to_multiset().insert(x),
    decreases s.len(),
{
    broadcast use vstd::seq_lib::group_to_multiset_ensures;

    let r = inserted(s, x);
    if s.len() == 0 {
        assert(r =~= s.push(x));
    } else if precedes(x, s[0]) {
        assert(r =~= s.insert(0, x));
        assert forall|i: int, j: int| 0 <= i < j < r.len() implies !precedes(r[j], r[i]) by {
            if i == 0 {
                if precedes(s[j - 1], x) {
                    precedes_transitive(s[j - 1], x, s[0]);
                    if j == 1 {
                        precedes_irreflexive(s[0]);
                    }
                }
            } else {
                assert(r[i] == s[i - 1] && r[j] == s[j - 1]);
            }
        }
    } else {
        let rest = s.drop_first();
        assert(in_order(rest)) by {
            assert forall|i: int, j: int| 0 <= i < j < rest.len() implies !precedes(
                #[trigger] rest[j],
                #[trigger] rest[i],
            ) by {
                assert(s[i + 1] == rest[i] && s[j + 1] == rest[j]);
            }
        }
        inserted_in_order(rest, x);
        let q = inserted(rest, x);
        assert(r =~= seq![s[0]] + q);
        assert(s =~= seq![s[0]] + rest);
        assert(rest.insert(0, s[0]) =~= s);
        assert(q.insert(0, s[0]) =~= r);
        assert(r.to_multiset() =~= s.to_multiset().insert(x));
        assert forall|i: int, j: int| 0 <= i < j < r.len() implies !precedes(r[j], r[i]) by {
            if i == 0 {
                let y = q[j - 1];
                assert(q.to_multiset().contains(y));
                if y != x {
                    assert(rest.to_multiset().contains(y));
                    let k = choose|k: int| 0 <= k < rest.len() && rest[k] == y;
                    assert(s[k + 1] == y);
                    assert(!precedes(s[k + 1], s[0]));
                }
            } else {
                assert(r[i] == q[i - 1] && r[j] == q[j - 1]);
            }
        }
    }
}

/// Sorting gives the same texts, in order.
pub proof fn sorted_is_sorted(s: Seq<Seq<char>>)
    ensures
        in_order(sorted(s)),
        sorted(s).len() == s.len(),
        sorted(s).to_multiset() == s.to_multiset(),
    decreases s.len(),
{
    broadcast use vstd::seq_lib::group_to_multiset_ensures;

    if s.len() > 0 {
        sorted_is_sorted(s.drop_last());
        inserted_in_order(sorted(s.drop_last()), s.last());
        assert(s =~= s.drop_last().push(s.last()));
    } else {
        assert(sorted(s) =~= s);
    }
}

/// Sorting texts that differ gives each of them once, each before the next.
pub proof fn sorted_distinct(s: Seq<Seq<char>>)
    requires
        s.no_duplicates(),
    ensures
        sorted(s).no_duplicates(),
        forall|x: Seq<char>| #[trigger] sorted(s).contains(x) <==> s.contains(x),
        forall|i: int, j: int|
            #![trigger sorted(s)[i], sorted(s)[j]]
            0 <= i < j < sorted(s).len() ==> precedes(sorted(s)[i], sorted(s)[j]),
{
    broadcast use vstd::seq_lib::group_to_multiset_ensures;

    sorted_is_sorted(s);
    s.lemma_multiset_has_no_duplicates();
    let r = sorted(s);
    r.lemma_multiset_has_no_duplicates_conv();
    assert forall|x: Seq<char>| #[trigger] r.contains(x) <==> s.contains(x) by {
        assert(r.to_multiset().count(x) == s.to_multiset().count(x));
    }
    assert forall|i: int, j: int| 0 <= i < j < r.len() implies precedes(
        #[trigger] r[i],
        #[trigger] r[j],
    ) by {
        precedes_total(r[i], r[j]);
        assert(!precedes(r[j], r[i]));
    }
}

/// Puts a string before the first one that it precedes.
fn insert_name(v: &mut Vec<String>, x: String)
    ensures
        views(final(v)@) == inserted(views(old(v)@), x@),
{
    let ghost was = views(v@);
    let ghost held = v@;
    let mut i: usize = 0;
    proof {
        assert(was.skip(0) =~= was);
        assert(was.take(0) + inserted(was, x@) =~= inserted(was, x@));
    }
    while i < v.len() && !before(x.as_str(), v[i].as_str())
        invariant
            v@ == held,
            was == views(held),
            i <= v.len(),
            inserted(was, x@) == was.take(i as int) + inserted(was.skip(i as int), x@),
        decreases v.len() - i,
    {
        proof {
            let rest = was.skip(i as int);
            assert(rest[0] == was[i as int]);
            assert(rest.drop_first() =~= was.skip(i + 1));
            assert(was.take(i as int) + (seq![was[i as int]] + inserted(was.skip(i + 1), x@))
                =~= was.take(i + 1) + inserted(was.skip(i + 1), x@));
        }
        i = i + 1;
    }
    v.insert(i, x);
    proof {
        let rest = was.skip(i as int);
        if i < held.len() {
            assert(rest[0] == was[i as int]);
            assert(views(v@) =~= was.take(i as int) + (seq![x@] + rest));
        } else {
            assert(views(v@) =~= was.take(i as int) + seq![x@]);
        }
    }
}

/// The strings, in order.
pub fn sort_names(v: &Vec<String>) -> (r: Vec<String>)
    ensures
        views(r@) == sorted(views(v@)),
{
    let mut r: Vec<String> = Vec::new();
    let mut i: usize = 0;
    proof {
        assert(views(v@).take(0) =~= Seq::<Seq<char>>::empty());
        assert(views(r@) =~= Seq::<Seq<char>>::empty());
    }
    while i < v.len()
        invariant
            i <= v.len(),
            views(r@) == sorted(views(v@).take(i as int)),
        decreases v.len() - i,
    {
        proof {
            let more = views(v@).take(i + 1);
            assert(more.drop_last() =~= views(v@).take(i as int));
            assert(more.last() == v@[i as int]@);
        }
        insert_name(&mut r, v[i].clone());
        i = i + 1;
    }
    proof {
        assert(views(v@).take(v@.len() as int) =~= views(v@));
    }
    r
}

// ---------------------------------------------------------------------------
// Decimal numbers
// ---------------------------------------------------------------------------

/// The character of a decimal digit.
pub open spec fn digit(d: nat) -> char {
    (d + 48) as char
}

/// A number in decimal, without leading zeros.
pub open spec fn decimal(n: nat) -> Seq<char>
    decreases n,
{
    if n < 10 {
        seq![digit(n)]
    } else {
        decimal(n / 10).push(digit(n % 10))
    }
}

fn push_decimal(out: &mut String, n: u64)
    ensures
        final(out)@ == old(out)@ + decimal(n as nat),
    decreases n,
{
    if n < 10 {
        out.push((48 + n as u8) as char);
    } else {
        push_decimal(out, n / 10);
        out.push((48 + (n % 10) as u8) as char);
    }
}

/// The number in decimal.
pub fn decimal_string(n: u64) -> (r: String)
    ensures
        r@ == decimal(n as nat),
{
    let mut r = String::new();
    push_decimal(&mut r, n);
    r
}

/// Whether the character is a decimal digit.
pub open spec fn is_digit(c: char) -> bool {
    '0' <= c <= '9'
}

/// Whether every character is a decimal digit.
pub open spec fn all_digits(s: Seq<char>) -> bool {
    forall|i: int| 0 <= i < s.len() ==> is_digit(#[trigger] s[i])
}

/// The number that a sequence of digits stands for.
pub open spec fn digits_value(s: Seq<char>) -> nat
    decreases s.len(),
{
    if s.len() == 0 {
        0
    } else {
        digits_value(s.drop_last()) * 10 + (s.last() as nat - 48) as nat
    }
}

/// The unsigned 64-bit number a text stands for: an optional plus sign, then
/// one or more digits, with a value that fits.
pub open spec fn number(s: Seq<char>) -> Option<u64> {
    let d = if s.len() > 0 && s[0] == '+' {
        s.skip(1)
    } else {
        s
    };
    if d.len() > 0 && all_digits(d) && digits_value(d) <= u64::MAX {
        Some(digits_value(d) as u64)
    } else {
        None
    }
}

/// A longer run of digits is worth no less.
proof fn digits_value_grows(s: Seq<char>, n: int)
    requires
        0 <= n <= s.len(),
        all_digits(s),
    ensures
        digits_value(s.take(n)) <= digits_value(s),
    decreases s.len(),
{
    if n < s.len() {
        digits_value_grows(s.drop_last(), n);
        assert(s.drop_last().take(n) =~= s.take(n));
    } else {
        assert(s.take(n) =~= s);
    }
}

/// The unsigned 64-bit number a text stands for.
pub fn parse_number(s: &str) -> (r: Option<u64>)
    ensures
        r == number(s@),
{
    let cs = chars_of(s);
    let from: usize = if cs.len() > 0 && cs[0] == '+' { 1 } else { 0 };
    let ghost d = s@.skip(from as int);
    proof {
        assert(s@.skip(0) =~= s@);
    }
    if from == cs.len() {
        return None;
    }
    let mut value: u64 = 0;
    let mut i: usize = from;
    while i < cs.len()
        invariant
            cs@ == s@,
            from <= i <= cs.len(),
            d == s@.skip(from as int),
            forall|j: int| 0 <= j < i - from ==> is_digit(#[trigger] d[j]),
            value == digits_value(d.take(i - from)),
            number(s@) == if d.len() > 0 && all_digits(d) && digits_value(d) <= u64::MAX {
                Some(digits_value(d) as u64)
            } else {
                None::<u64>
            },
        decreases cs.len() - i,
    {
        let c = cs[i];
        let ghost k = i - from;
        proof {
            assert(d[k] == c);
            assert(d.take(k + 1).drop_last() =~= d.take(k));
            assert(d.take(k + 1).last() == c);
        }
        if !('0' <= c && c <= '9') {
            proof {
                assert(!is_digit(d[k]));
            }
            return None;
        }
        let unit: u64 = (c as u8 - 48) as u64;
        let grown: Option<u64> = match value.checked_mul(10) {
            Some(v) => v.checked_add(unit),
            None => None,
        };
        match grown {
            Some(v) => {
                value = v;
            },
            None => {
                proof {
                    if all_digits(d) {
                        digits_value_grows(d, k + 1);
                    }
                }
                return None;
            },
        }
        i = i + 1;
    }
    proof {
        assert(d.take(d.len() as int) =~= d);
    }
    Some(value)
}

/// Every character of a decimal number is a digit, and the digits stand for
/// the number.
pub proof fn decimal_value(n: nat)
    ensures
        decimal(n).len() > 0,
        all_digits(decimal(n)),
        digits_value(decimal(n)) == n,
    decreases n,
{
    if n < 10 {
        let s = decimal(n);
        assert(s.drop_last() =~= Seq::<char>::empty());
        assert(digits_value(Seq::<char>::empty()) == 0);
        assert(s.last() == digit(n));
    } else {
        decimal_value(n / 10);
        let s = decimal(n);
        assert(s.drop_last() =~= decimal(n / 10));
        assert(s.last() == digit(n % 10));
        assert forall|i: int| 0 <= i < s.len() implies is_digit(#[trigger] s[i]) by {
            if i < s.len() - 1 {
                assert(s[i] == decimal(n / 10)[i]);
            }
        }
    }
}

/// A number written in decimal reads back as itself.
pub proof fn number_of_decimal(n: u64)
    ensures
        number(decimal(n as nat)) == Some(n),
{
    decimal_value(n as nat);
    assert(is_digit(decimal(n as nat)[0]));
}

/// `String::from_utf8`: the text that bytes encode, nothing where they are not
/// UTF-8.
#[verifier::external_body]
pub(crate) fn text_of(bytes: Vec<u8>) -> (r: Option<String>)
    ensures
        r is Some == vstd::utf8::valid_utf8(bytes@),
        r is Some ==> r->Some_0@ == vstd::utf8::decode_utf8(bytes@),
{
    String::from_utf8(bytes).ok()
}

/// A text of two parts without the separator splits into them, and one without the
/// separator is its only part.
pub proof fn split_of_two(a: Seq<char>, b: Seq<char>, c: char)
    requires
        !a.contains(c),
    ensures
        split(a + seq![c] + b, c) == seq![a] + split(b, c),
        split(a, c) == seq![a],
{
    let s = a + seq![c] + b;
    assert forall|j: int| 0 <= j < a.len() implies a[j] != c && s[j] != c by {
        assert(a.contains(a[j]));
        assert(s[j] == a[j]);
    }
    assert(s[a.len() as int] == c);
    position_unique(s, c, 0, a.len() as int);
    assert(s.take(a.len() as int) =~= a);
    assert(s.skip(a.len() as int + 1) =~= b);
    position_unique(a, c, 0, a.len() as int);
}

/// Trimming takes white space away from both ends and nothing else: what is left stands
/// in the text, with white space before and behind it alone, and none at its ends.
pub proof fn what_trimming_takes(s: Seq<char>) -> (at: int)
    ensures
        0 <= at <= s.len() - trimmed(s).len(),
        trimmed(s) == s.subrange(at, at + trimmed(s).len()),
        forall|i: int| 0 <= i < at ==> white_space(#[trigger] s[i]),
        forall|i: int| at + trimmed(s).len() <= i < s.len() ==> white_space(#[trigger] s[i]),
        trimmed(s).len() > 0 ==> !white_space(trimmed(s)[0]) && !white_space(trimmed(s).last()),
{
    trimmed_ends(s);
    let n = start_taken(s);
    let t = trimmed_start(s);
    end_taken(t);
    let r = trimmed(s);
    assert(r =~= s.subrange(n, n + r.len()));
    assert forall|i: int| n + r.len() <= i < s.len() implies white_space(#[trigger] s[i]) by {
        assert(t[i - n] == s[i]);
    }
    n
}

proof fn start_taken(s: Seq<char>) -> (n: int)
    ensures
        0 <= n <= s.len(),
        trimmed_start(s) == s.skip(n),
        forall|i: int| 0 <= i < n ==> white_space(#[trigger] s[i]),
    decreases s.len(),
{
    if s.len() > 0 && white_space(s[0]) {
        let rest = s.drop_first();
        let n = start_taken(rest);
        assert(rest.skip(n) =~= s.skip(n + 1));
        assert forall|i: int| 0 <= i < n + 1 implies white_space(#[trigger] s[i]) by {
            if i > 0 {
                assert(rest[i - 1] == s[i]);
            }
        }
        n + 1
    } else {
        assert(s.skip(0) =~= s);
        0
    }
}

proof fn end_taken(s: Seq<char>)
    ensures
        trimmed_end(s).len() <= s.len(),
        trimmed_end(s) == s.take(trimmed_end(s).len() as int),
        forall|i: int| trimmed_end(s).len() <= i < s.len() ==> white_space(#[trigger] s[i]),
    decreases s.len(),
{
    if s.len() > 0 && white_space(s.last()) {
        let head = s.drop_last();
        end_taken(head);
        let r = trimmed_end(s);
        assert(head.take(r.len() as int) =~= s.take(r.len() as int));
        assert forall|i: int| r.len() <= i < s.len() implies white_space(#[trigger] s[i]) by {
            if i < head.len() {
                assert(head[i] == s[i]);
            }
        }
    } else {
        assert(s.take(s.len() as int) =~= s);
    }
}

/// White space is what stands between words, in every script, and no letter or digit.
pub proof fn what_white_space_is(c: char)
    ensures
        white_space(' ') && white_space('\t') && white_space('\n') && white_space('\r'),
        white_space('\u{b}') && white_space('\u{c}') && white_space('\u{85}'),
        white_space('\u{a0}') && white_space('\u{1680}') && white_space('\u{2028}'),
        white_space('\u{2029}') && white_space('\u{202f}') && white_space('\u{205f}'),
        white_space('\u{3000}'),
        '\u{2000}' <= c && c <= '\u{200a}' ==> white_space(c),
        c > ' ' && c <= '~' || c < '\t' ==> !white_space(c),
        c > '\u{3000}' || ('\u{1680}' < c && c < '\u{2000}') || ('\u{a0}' < c && c < '\u{1680}')
            || ('\u{200a}' < c && c < '\u{2028}') || ('\u{2029}' < c && c < '\u{202f}') || (
        '\u{202f}' < c && c < '\u{205f}') || ('\u{205f}' < c && c < '\u{3000}') ==> !white_space(c),
{
}

/// A small letter and its capital lead to one another, in the order of the alphabet, and
/// what is no letter of it stays as it is.
pub proof fn letters_have_two_cases(c: char, s: Seq<char>)
    ensures
        'a' <= c && c <= 'z' ==> 'A' <= ascii_capital(c) && ascii_capital(c) <= 'Z'
            && ascii_small(ascii_capital(c)) == c,
        'A' <= c && c <= 'Z' ==> 'a' <= ascii_small(c) && ascii_small(c) <= 'z' && ascii_capital(
            ascii_small(c),
        ) == c,
        !('a' <= c && c <= 'z') ==> ascii_capital(c) == c,
        !('A' <= c && c <= 'Z') ==> ascii_small(c) == c,
        ascii_small('A') == 'a' && ascii_capital('z') == 'Z',
        vstd::utf8::is_ascii_chars(s) ==> lowered(s) == ascii_lower(s) && uppered(s)
            == ascii_upper(s),
        ascii_lower(s).len() == s.len() && ascii_upper(s).len() == s.len(),
{
}

/// A text begins with its first character and no other, and an empty one with none.
pub proof fn what_a_text_begins_with(c: char, rest: Seq<char>, d: char)
    ensures
        begins(seq![c] + rest, d) <==> c == d,
        !begins(Seq::empty(), d),
        without_prefix(seq![c] + rest, seq![c]) == Some(rest),
        c != d ==> without_prefix(seq![c] + rest, seq![d]) is None,
{
    let s = seq![c] + rest;
    assert(s[0] == c);
    assert(s.skip(1) =~= rest);
    assert(s.take(1) =~= seq![c]);
    if c != d && seq![d].is_prefix_of(s) {
        assert(s.take(1)[0] == d);
    }
}

/// A text is cut at the first of a character, which is on neither side, and one without
/// it is not cut.
pub proof fn where_a_text_is_cut(a: Seq<char>, b: Seq<char>, c: char)
    requires
        !a.contains(c),
    ensures
        split_once(a + seq![c] + b, c) == Some((a, b)),
        split_once(a, c) is None,
{
    let s = a + seq![c] + b;
    assert forall|j: int| 0 <= j < a.len() implies a[j] != c && s[j] != c by {
        assert(a.contains(a[j]));
        assert(s[j] == a[j]);
    }
    assert(s[a.len() as int] == c);
    position_unique(s, c, 0, a.len() as int);
    position_unique(a, c, 0, a.len() as int);
    assert(s.take(a.len() as int) =~= a);
    assert(s.skip(a.len() as int + 1) =~= b);
}

/// What is taken off the end of a text is that character and nothing else, all of it.
pub proof fn what_is_taken_off_the_end(s: Seq<char>, c: char)
    ensures
        without_trailing(s.push(c), c) == without_trailing(s, c),
        without_trailing(s, c).len() > 0 ==> without_trailing(s, c).last() != c,
        without_trailing(s, c).is_prefix_of(s),
        forall|i: int| without_trailing(s, c).len() <= i < s.len() ==> (#[trigger] s[i]) == c,
    decreases s.len(),
{
    assert(s.push(c).drop_last() =~= s);
    if s.len() > 0 && s.last() == c {
        let head = s.drop_last();
        what_is_taken_off_the_end(head, c);
        assert forall|i: int| without_trailing(s, c).len() <= i < s.len() implies (
        #[trigger] s[i]) == c by {
            if i < head.len() {
                assert(head[i] == s[i]);
            }
        }
        assert(s.take(without_trailing(s, c).len() as int) =~= head.take(
            without_trailing(s, c).len() as int,
        ));
    } else {
        assert(s.take(s.len() as int) =~= s);
    }
}

/// Texts in order stand so that none comes before one that stands before it.
pub proof fn what_order_means(s: Seq<Seq<char>>, i: int, j: int)
    requires
        in_order(s),
        0 <= i < j < s.len(),
    ensures
        !precedes(s[j], s[i]),
{
}

} // verus!
