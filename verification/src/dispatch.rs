//! Resolving the chooser's answer to a command to execute.
//!
//! Once the chooser has returned a line of text, the dispatcher finds the
//! first entry of that display name, takes its command string, splits it
//! on whitespace, strips placeholder tokens from the arguments, and hands
//! back the program and argument list to execute. Choosing nothing, or a
//! name no entry carries, is a benign outcome, not an error.

use vstd::prelude::*;
use crate::command::argv_of;
use crate::command::is_placeholder;
use crate::command::is_placeholder_token;
use crate::command::kept_args;
use crate::command::split_tokens;
use crate::command::tokens_of;
use crate::entries::Entry;
use crate::entries::EntryKind;
use crate::entries::find_entry;

verus! {

/// What the launcher is to do with the chooser's answer.
pub enum Dispatch {
    /// Replace the launcher with this program and argument list.
    Launch { program: String, args: Vec<String> },
    /// No entry was selected: exit successfully without running anything.
    NoSelection,
    /// The selected entry names no usable command: a fatal error.
    MissingCommand,
}

/// The program and arguments a command string resolves to, as a single
/// claim: the first token is the program, the rest are the arguments with
/// placeholder tokens stripped. A command without tokens resolves to
/// nothing usable.
pub open spec fn resolves_to(cmd: Seq<char>, r: Dispatch) -> bool {
    if tokens_of(cmd).len() == 0 {
        r is MissingCommand
    } else {
        &&& r matches Dispatch::Launch { program, args }
        &&& program@ == tokens_of(cmd)[0]
        &&& args.deep_view() == kept_args(tokens_of(cmd).subrange(1, tokens_of(cmd).len() as int))
    }
}

/// What dispatch owes for the entry the chooser's answer matched.
pub open spec fn dispatch_for(e: Entry, r: Dispatch) -> bool {
    match e.kind {
        EntryKind::Application { command } => match command {
            Some(cmd) => resolves_to(cmd@, r),
            None => r is MissingCommand,
        },
        EntryKind::Other => r is NoSelection,
    }
}

/// Whether the entry at index `i` is the first one whose display name
/// equals `choice`.
pub open spec fn first_match_at(entries: Seq<Entry>, choice: Seq<char>, i: int) -> bool {
    &&& 0 <= i < entries.len()
    &&& entries[i].name@ == choice
    &&& forall|j: int| 0 <= j < i ==> entries[j].name@ != choice
}

/// Split a command string into the program to run and its arguments, with
/// placeholder tokens stripped from the arguments. `None` exactly when the
/// string holds no token at all.
pub fn build_argv(cmd: &str) -> (r: Option<(String, Vec<String>)>)
    ensures
        r is Some <==> tokens_of(cmd@).len() > 0,
        match r {
            Some((program, args)) => program@ == tokens_of(cmd@)[0] && args.deep_view()
                == kept_args(tokens_of(cmd@).subrange(1, tokens_of(cmd@).len() as int)) && seq![
                program@,
            ] + args.deep_view() == argv_of(cmd@),
            None => true,
        },
{
    let toks: Vec<String> = split_tokens(cmd);
    let ghost ts = tokens_of(cmd@);
    proof {
        assert(toks.deep_view().len() == toks@.len());
    }
    if toks.len() == 0 {
        return None;
    }
    let program: String = toks[0].clone();
    let mut args: Vec<String> = Vec::new();
    let mut k: usize = 1;
    while k < toks.len()
        invariant
            1 <= k <= toks.len(),
            toks.deep_view() == ts,
            ts.len() == toks@.len(),
            args.deep_view() == kept_args(ts.subrange(1, k as int)),
        decreases toks.len() - k,
    {
        let ghost seen = ts.subrange(1, k as int);
        if !is_placeholder_token(toks[k].as_str()) {
            let ghost before = args.deep_view();
            args.push(toks[k].clone());
            proof {
                assert(args.deep_view() =~= before.push(ts[k as int]));
            }
        }
        proof {
            let next = ts.subrange(1, k as int + 1);
            assert(next.drop_last() =~= seen);
            assert(next.last() == ts[k as int]);
        }
        k = k + 1;
    }
    Some((program, args))
}

/// Decide what to do with the chooser's answer: nothing when no entry
/// carries that name (or the matched entry is not an application), an
/// explicit missing-command failure when the first matching entry has no
/// usable command, and otherwise the program and placeholder-stripped
/// arguments of that entry's command line.
pub fn dispatch(entries: &Vec<Entry>, choice: &str) -> (r: Dispatch)
    ensures
        (forall|j: int| 0 <= j < entries@.len() ==> entries@[j].name@ != choice@) ==> r
            is NoSelection,
        forall|i: int| first_match_at(entries@, choice@, i) ==> dispatch_for(entries@[i], r),
{
    let found = find_entry(entries, choice);
    match found {
        None => Dispatch::NoSelection,
        Some(i) => {
            let entry = &entries[i];
            match &entry.kind {
                EntryKind::Other => Dispatch::NoSelection,
                EntryKind::Application { command } => match command {
                    None => Dispatch::MissingCommand,
                    Some(cmd) => match build_argv(cmd.as_str()) {
                        None => Dispatch::MissingCommand,
                        Some((program, args)) => Dispatch::Launch { program, args },
                    },
                },
            }
        },
    }
}

/// After the program itself, no placeholder token survives into the
/// argument vector a command string resolves to.
pub proof fn lemma_argv_no_placeholders(cmd: Seq<char>)
    ensures
        forall|k: int| 1 <= k < argv_of(cmd).len() ==> !is_placeholder(#[trigger] argv_of(cmd)[k]),
{
    let ts = tokens_of(cmd);
    if ts.len() > 0 {
        lemma_kept_args_no_placeholders(ts.subrange(1, ts.len() as int));
    }
}

/// Every token that placeholder stripping keeps is not a placeholder.
pub proof fn lemma_kept_args_no_placeholders(ts: Seq<Seq<char>>)
    ensures
        forall|k: int| 0 <= k < kept_args(ts).len() ==> !is_placeholder(#[trigger] kept_args(ts)[k]),
    decreases ts.len(),
{
    if ts.len() > 0 {
        lemma_kept_args_no_placeholders(ts.drop_last());
        let init = kept_args(ts.drop_last());
        if !is_placeholder(ts.last()) {
            assert forall|k: int| 0 <= k < kept_args(ts).len() implies !is_placeholder(
                kept_args(ts)[k],
            ) by {
                if k < init.len() {
                    assert(kept_args(ts)[k] == init[k]);
                } else {
                    assert(kept_args(ts)[k] == ts.last());
                }
            }
        }
    }
}

} // verus!
