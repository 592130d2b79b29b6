//! Text handed to and received from the external chooser program.
//!
//! The chooser is an interactive subprocess: it reads one candidate name
//! per line on its standard input and writes the chosen line back on its
//! standard output. This module builds the exact byte-for-byte text of
//! that input, and normalises the chooser's answer by stripping its
//! trailing whitespace run. The spawning itself is unverified plumbing
//! and lives with the caller.

use vstd::prelude::*;
use vstd::string::StrSliceExecFns;
use vstd::string::StringExecFns;
use crate::command::is_space;
use crate::command::is_space_char;

verus! {

/// Each name in order, each followed by a single newline.
pub open spec fn joined_lines(names: Seq<Seq<char>>) -> Seq<char>
    decreases names.len(),
{
    if names.len() == 0 {
        Seq::empty()
    } else {
        joined_lines(names.drop_last()) + names.last() + seq!['\n']
    }
}

/// `s` without its trailing run of whitespace characters.
pub open spec fn trimmed(s: Seq<char>) -> Seq<char>
    decreases s.len(),
{
    if s.len() == 0 {
        s
    } else if is_space_char(s.last()) {
        trimmed(s.drop_last())
    } else {
        s
    }
}

/// A chooser that echoes back a line it was shown loses nothing: for a
/// display name without trailing whitespace, stripping the echoed line's
/// trailing newline returns exactly the name, so matching it back against
/// the entry set sees the very string the entry carries.
pub proof fn lemma_echoed_line_round_trip(name: Seq<char>)
    requires
        name.len() == 0 || !is_space_char(name.last()),
    ensures
        trimmed(name + seq!['\n']) == name,
{
    let line = name + seq!['\n'];
    assert(line.last() == '\n');
    assert(line.drop_last() =~= name);
    assert(trimmed(line) == trimmed(name));
    assert(trimmed(name) == name);
}

/// The text streamed to the chooser: every display name on a line of its own.
pub fn chooser_input(names: &Vec<String>) -> (r: String)
    ensures
        r@ == joined_lines(names.deep_view()),
{
    let mut out: String = String::new();
    let mut k: usize = 0;
    while k < names.len()
        invariant
            k <= names.len(),
            out@ == joined_lines(names.deep_view().take(k as int)),
        decreases names.len() - k,
    {
        let ghost prefix = names.deep_view().take(k as int);
        out.append(names[k].as_str());
        out.append("\n");
        proof {
            reveal_strlit("\n");
            assert("\n"@ =~= seq!['\n']);
            let next = names.deep_view().take(k as int + 1);
            assert(next.drop_last() =~= prefix);
            assert(next.last() == names.deep_view()[k as int]);
        }
        k = k + 1;
    }
    proof {
        assert(names.deep_view().take(names.len() as int) =~= names.deep_view());
    }
    out
}

/// The chooser's answer with its trailing whitespace run removed. An empty
/// result means the user chose nothing.
pub fn trim_choice(s: &str) -> (r: String)
    ensures
        r@ == trimmed(s@),
{
    let n: usize = s.unicode_len();
    let mut j: usize = n;
    proof {
        assert(s@.take(n as int) =~= s@);
    }
    while j > 0 && is_space(s.get_char(j - 1))
        invariant
            n == s@.len(),
            j <= n,
            trimmed(s@) == trimmed(s@.take(j as int)),
        decreases j,
    {
        proof {
            let cur = s@.take(j as int);
            assert(cur.last() == s@[j as int - 1]);
            assert(cur.drop_last() =~= s@.take(j as int - 1));
        }
        j = j - 1;
    }
    let r = s.substring_char(0, j).to_owned();
    proof {
        assert(s@.subrange(0, j as int) =~= s@.take(j as int));
        if j > 0 {
            assert(s@.take(j as int).last() == s@[j as int - 1]);
        }
    }
    r
}

} // verus!
