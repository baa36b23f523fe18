//! Updating the system from a script.
use crate::collections::StrMap;
use crate::item::{Item, ProcessResult};
use crate::server::auth_config;
use crate::server::secret;
use crate::server::secret::ensure_admin;
use crate::text;
use crate::text::{cat, chars_of, decimal_string, owned, piece};
use vstd::prelude::*;

verus! {

/// How many characters precede the first white space from a place on.
pub open spec fn word_length(s: Seq<char>) -> nat
    decreases s.len(),
{
    if s.len() == 0 || text::white_space(s[0]) {
        0
    } else {
        1 + word_length(s.skip(1))
    }
}

/// The words of a text: what stands between its white space.
pub open spec fn words(s: Seq<char>) -> Seq<Seq<char>>
    decreases s.len(),
{
    if s.len() == 0 {
        Seq::empty()
    } else if text::white_space(s[0]) {
        words(s.skip(1))
    } else {
        let n = word_length(s);
        proof {
            word_length_bound(s);
        }
        seq![s.take(n as int)] + words(s.skip(n as int))
    }
}

/// A word ends where the text does or before white space.
pub proof fn word_length_bound(s: Seq<char>)
    ensures
        word_length(s) <= s.len(),
        s.len() > 0 && !text::white_space(s[0]) ==> word_length(s) > 0,
        forall|i: int| 0 <= i < word_length(s) ==> !text::white_space(#[trigger] s[i]),
        word_length(s) < s.len() ==> text::white_space(s[word_length(s) as int]),
    decreases s.len(),
{
    if s.len() > 0 && !text::white_space(s[0]) {
        word_length_bound(s.skip(1));
        assert forall|i: int| 0 <= i < word_length(s) implies !text::white_space(
            #[trigger] s[i],
        ) by {
            if i > 0 {
                assert(s[i] == s.skip(1)[i - 1]);
            }
        }
    }
}

proof fn word_length_is(s: Seq<char>, n: nat)
    requires
        n <= s.len(),
        forall|i: int| 0 <= i < n ==> !text::white_space(#[trigger] s[i]),
        n < s.len() ==> text::white_space(s[n as int]),
    ensures
        word_length(s) == n,
    decreases s.len(),
{
    if n > 0 {
        assert(!text::white_space(s[0]));
        assert forall|i: int| 0 <= i < n - 1 implies !text::white_space(
            #[trigger] s.skip(1)[i],
        ) by {
            assert(s.skip(1)[i] == s[i + 1]);
        }
        word_length_is(s.skip(1), (n - 1) as nat);
    }
}

/// The words of a text.
pub fn split_words(s: &str) -> (r: Vec<String>)
    ensures
        text::views(r@) == words(s@),
{
    let cs = chars_of(s);
    let n: usize = cs.len();
    let mut out: Vec<String> = Vec::new();
    let mut i: usize = 0;
    proof {
        assert(s@.skip(0) =~= s@);
        assert(text::views(out@) + words(s@) =~= words(s@));
    }
    while i < n
        invariant
            i <= n,
            n == cs@.len(),
            cs@ == s@,
            text::views(out@) + words(s@.skip(i as int)) == words(s@),
        decreases n - i,
    {
        let ghost rest = s@.skip(i as int);
        proof {
            assert(rest[0] == s@[i as int]);
        }
        if cs[i].is_whitespace() {
            proof {
                assert(rest.skip(1) =~= s@.skip(i + 1));
            }
            i = i + 1;
        } else {
            let start: usize = i;
            i = i + 1;
            while i < n && !cs[i].is_whitespace()
                invariant
                    start < i <= n,
                    n == cs@.len(),
                    cs@ == s@,
                    forall|j: int| start <= j < i ==> !text::white_space(#[trigger] s@[j]),
                decreases n - i,
            {
                i = i + 1;
            }
            let word = piece(&cs, start, i);
            let ghost had = text::views(out@);
            out.push(word);
            proof {
                let len = (i - start) as nat;
                assert forall|j: int| 0 <= j < len implies !text::white_space(
                    #[trigger] rest[j],
                ) by {
                    assert(rest[j] == s@[start + j]);
                }
                if len < rest.len() {
                    assert(rest[len as int] == s@[i as int]);
                }
                word_length_is(rest, len);
                assert(rest.take(len as int) =~= word@);
                assert(rest.skip(len as int) =~= s@.skip(i as int));
                assert(text::views(out@) =~= had.push(word@));
                assert(had + (seq![word@] + words(s@.skip(i as int))) =~= had.push(word@) + words(
                    s@.skip(i as int),
                ));
            }
        }
    }
    proof {
        assert(s@.skip(n as int) =~= Seq::<char>::empty());
        assert(text::views(out@) + Seq::<Seq<char>>::empty() =~= text::views(out@));
    }
    out
}

/// What an update request comes to.
pub enum Update {
    /// The caller is not an administrator.
    Forbidden,
    /// Nothing is run; this is the answer.
    Answer(ProcessResult),
    /// This program is run with these arguments.
    Run(String, Vec<String>),
}

/// What an update request comes to, given the script that this deployment is
/// configured with.
pub fn system_update(internals: &Item, user: &Option<Item>, script: &str) -> (r: Update)
    ensures
        if !secret::is_admin(internals@, *user) {
            r is Forbidden
        } else if words(script@).len() == 0 {
            r matches Update::Answer(p) && auth_config::fails(
                p,
                "update script is not configured"@,
            )
        } else {
            r matches Update::Run(program, args) && program@ == words(script@)[0] && text::views(
                args@,
            ) == words(script@).skip(1)
        },
{
    if !ensure_admin(internals, user) {
        return Update::Forbidden;
    }
    let mut parts = split_words(script);
    if parts.len() == 0 {
        return Update::Answer(ProcessResult::plain(false, "update script is not configured"));
    }
    let ghost all = text::views(parts@);
    let program = parts.remove(0);
    proof {
        assert(program@ == all[0]);
        assert(text::views(parts@) =~= all.skip(1));
    }
    Update::Run(program, parts)
}

/// A whole number in decimal.
pub open spec fn signed_decimal(c: i32) -> Seq<char> {
    if c < 0 {
        "-"@ + text::decimal((-c) as nat)
    } else {
        text::decimal(c as nat)
    }
}

fn signed_string(c: i32) -> (r: String)
    ensures
        r@ == signed_decimal(c),
{
    let wide: i64 = c as i64;
    if wide < 0 {
        cat("-", decimal_string((-wide) as u64).as_str())
    } else {
        decimal_string(wide as u64)
    }
}

/// What is answered when the script has run: its output, its exit code where it
/// has one, and whether it succeeded. `status` describes how it ended.
pub fn update_ran(
    success: bool,
    exit_code: Option<i32>,
    status: &str,
    stdout: String,
    stderr: String,
) -> (r: ProcessResult)
    ensures
        r.succeeded == success,
        r.error@ == if success {
            Seq::<char>::empty()
        } else {
            "update script exited with status "@ + status@
        },
        r.data@ == Map::<Seq<char>, Seq<char>>::empty().insert("stdout"@, stdout@).insert(
            "stderr"@,
            stderr@,
        ).insert(
            "exit_code"@,
            match exit_code {
                Some(c) => signed_decimal(c),
                None => Seq::empty(),
            },
        ),
{
    let mut data: StrMap<String> = StrMap::new();
    data.insert(owned("stdout"), stdout);
    data.insert(owned("stderr"), stderr);
    data.insert(
        owned("exit_code"),
        match exit_code {
            Some(c) => signed_string(c),
            None => String::new(),
        },
    );
    let error = if success {
        String::new()
    } else {
        cat("update script exited with status ", status)
    };
    ProcessResult { succeeded: success, error, data }
}

/// What is answered when the script could not be run.
pub fn update_failed(why: &str) -> (r: ProcessResult)
    ensures
        auth_config::fails(r, "failed to run update script: "@ + why@),
{
    ProcessResult::plain(false, cat("failed to run update script: ", why).as_str())
}

/// No word is empty or holds white space.
pub proof fn words_are_words(s: Seq<char>, i: int, j: int)
    requires
        0 <= i < words(s).len(),
        0 <= j < words(s)[i].len(),
    ensures
        words(s)[i].len() > 0,
        !text::white_space(words(s)[i][j]),
    decreases s.len(),
{
    if s.len() > 0 {
        if text::white_space(s[0]) {
            words_are_words(s.skip(1), i, j);
        } else {
            word_length_bound(s);
            let n = word_length(s) as int;
            if i > 0 {
                assert(words(s)[i] == words(s.skip(n))[i - 1]);
                words_are_words(s.skip(n), i - 1, j);
            } else {
                assert(words(s)[0] == s.take(n));
                assert(s.take(n)[j] == s[j]);
            }
        }
    }
}

/// The words of a text are what stands between its white space: a word alone is the
/// only one, white space before it makes no difference, and what follows a word and
/// white space are the other words.
pub proof fn what_words_are(word: Seq<char>, gap: char, rest: Seq<char>)
    requires
        word.len() > 0,
        forall|i: int| 0 <= i < word.len() ==> !text::white_space(#[trigger] word[i]),
        text::white_space(gap),
    ensures
        words(Seq::empty()).len() == 0,
        words(word) == seq![word],
        words(seq![gap] + rest) == words(rest),
        words(word + (seq![gap] + rest)) == seq![word] + words(rest),
{
    assert((seq![gap] + rest).skip(1) =~= rest);
    word_length_is(word, word.len());
    assert(word.take(word.len() as int) =~= word);
    assert(word.skip(word.len() as int) =~= Seq::<char>::empty());
    assert(words(Seq::<char>::empty()) =~= Seq::<Seq<char>>::empty());
    assert(!text::white_space(word[0]));
    assert(words(word) == seq![word] + words(word.skip(word.len() as int)));
    assert(words(word) =~= seq![word]);
    let s = word + (seq![gap] + rest);
    assert forall|i: int| 0 <= i < word.len() implies !text::white_space(#[trigger] s[i]) by {
        assert(s[i] == word[i]);
    }
    assert(s[word.len() as int] == gap);
    word_length_is(s, word.len());
    assert(s[0] == word[0]);
    assert(s.take(word.len() as int) =~= word);
    assert(s.skip(word.len() as int) =~= seq![gap] + rest);
}

/// A number below zero is written with a minus, and any other as it is.
pub proof fn how_numbers_are_written(c: i32)
    ensures
        c >= 0 ==> signed_decimal(c) == text::decimal(c as nat),
        c < 0 ==> signed_decimal(c) == "-"@ + text::decimal((-c) as nat),
{
}

} // verus!
