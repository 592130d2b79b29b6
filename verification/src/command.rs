//! Splitting a launch command line into its program and arguments.
//!
//! A command string from a descriptor is split on whitespace. The first
//! token names the program; the remaining tokens are its arguments, except
//! that placeholder tokens (a `%` followed by exactly one character) are
//! dropped, since this launcher never fills them in.

use vstd::prelude::*;
use vstd::string::StrSliceExecFns;

verus! {

/// The whitespace characters on which a command line splits.
pub open spec fn is_space_char(c: char) -> bool {
    c == ' ' || c == '\t' || c == '\n' || c == '\r'
}

/// A placeholder token: exactly two characters, the first a `%`.
pub open spec fn is_placeholder(t: Seq<char>) -> bool {
    t.len() == 2 && t[0] == '%'
}

/// The position at or after `i` where a token starting at `i` ends:
/// the index of the next whitespace character, or the end of the string.
pub open spec fn token_end(s: Seq<char>, i: int) -> int
    decreases s.len() - i,
{
    if i < 0 || i >= s.len() || is_space_char(s[i]) {
        i
    } else {
        token_end(s, i + 1)
    }
}

pub proof fn lemma_token_end(s: Seq<char>, i: int)
    requires
        0 <= i <= s.len(),
    ensures
        i <= token_end(s, i) <= s.len(),
        forall|k: int| i <= k < token_end(s, i) ==> !is_space_char(s[k]),
        token_end(s, i) < s.len() ==> is_space_char(s[token_end(s, i)]),
    decreases s.len() - i,
{
    if i < s.len() && !is_space_char(s[i]) {
        lemma_token_end(s, i + 1);
    }
}

/// A position that has only non-space characters since `i` and sits on a
/// space or at the end is exactly where the token starting at `i` ends.
pub proof fn lemma_token_end_is(s: Seq<char>, i: int, j: int)
    requires
        0 <= i <= j <= s.len(),
        forall|k: int| i <= k < j ==> !is_space_char(s[k]),
        j == s.len() || is_space_char(s[j]),
    ensures
        token_end(s, i) == j,
    decreases j - i,
{
    if i < j {
        lemma_token_end_is(s, i + 1, j);
    }
}

/// The whitespace-delimited tokens of `s` from position `i` on, in order.
pub open spec fn tokens_from(s: Seq<char>, i: int) -> Seq<Seq<char>>
    decreases s.len() - i,
    via tokens_from_dec
{
    if i < 0 || i >= s.len() {
        seq![]
    } else if is_space_char(s[i]) {
        tokens_from(s, i + 1)
    } else {
        seq![s.subrange(i, token_end(s, i))] + tokens_from(s, token_end(s, i))
    }
}

#[via_fn]
proof fn tokens_from_dec(s: Seq<char>, i: int) {
    if 0 <= i && i < s.len() && !is_space_char(s[i]) {
        lemma_token_end(s, i + 1);
    }
}

/// The whitespace-delimited tokens of `s`, in order.
pub open spec fn tokens_of(s: Seq<char>) -> Seq<Seq<char>> {
    tokens_from(s, 0)
}

/// The argument tokens that survive placeholder stripping, in order.
pub open spec fn kept_args(ts: Seq<Seq<char>>) -> Seq<Seq<char>>
    decreases ts.len(),
{
    if ts.len() == 0 {
        seq![]
    } else {
        let init = kept_args(ts.drop_last());
        if is_placeholder(ts.last()) {
            init
        } else {
            init.push(ts.last())
        }
    }
}

/// The argument vector a command string resolves to: its first token,
/// then the remaining tokens with placeholders removed. Empty when the
/// command has no tokens at all.
pub open spec fn argv_of(cmd: Seq<char>) -> Seq<Seq<char>> {
    let ts = tokens_of(cmd);
    if ts.len() == 0 {
        seq![]
    } else {
        seq![ts[0]] + kept_args(ts.subrange(1, ts.len() as int))
    }
}

/// Whether `c` is a whitespace character for command-line splitting.
pub fn is_space(c: char) -> (r: bool)
    ensures
        r == is_space_char(c),
{
    c == ' ' || c == '\t' || c == '\n' || c == '\r'
}

/// Whether `t` is a placeholder token.
pub fn is_placeholder_token(t: &str) -> (r: bool)
    ensures
        r == is_placeholder(t@),
{
    t.unicode_len() == 2 && t.get_char(0) == '%'
}

/// Whether a token is to be kept when building the argument list.
pub fn is_not_metavar(s: &&str) -> (r: bool)
    ensures
        r == !is_placeholder(s@),
{
    !is_placeholder_token(*s)
}

/// Split `s` into its whitespace-delimited tokens, in order.
pub fn split_tokens(s: &str) -> (r: Vec<String>)
    ensures
        r.deep_view() == tokens_of(s@),
{
    let n: usize = s.unicode_len();
    let mut out: Vec<String> = Vec::new();
    let mut i: usize = 0;
    while i < n
        invariant
            n == s@.len(),
            i <= n,
            tokens_of(s@) == out.deep_view() + tokens_from(s@, i as int),
        decreases n - i,
    {
        if is_space(s.get_char(i)) {
            i = i + 1;
        } else {
            let ghost prev = out.deep_view();
            let mut j: usize = i + 1;
            while j < n && !is_space(s.get_char(j))
                invariant
                    n == s@.len(),
                    i < j <= n,
                    forall|k: int| i <= k < j ==> !is_space_char(s@[k]),
                decreases n - j,
            {
                j = j + 1;
            }
            proof {
                lemma_token_end_is(s@, i as int, j as int);
            }
            let tok: String = s.substring_char(i, j).to_owned();
            out.push(tok);
            proof {
                assert(out.deep_view() =~= prev + seq![s@.subrange(i as int, j as int)]);
                assert(out.deep_view() + tokens_from(s@, j as int) =~= tokens_of(s@));
            }
            i = j;
        }
    }
    proof {
        assert(out.deep_view() =~= out.deep_view() + tokens_from(s@, i as int));
    }
    out
}

} // verus!
