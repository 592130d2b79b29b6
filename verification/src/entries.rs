//! Desktop entries and their discovery.
//!
//! A descriptor file yields an [`Entry`]: a display name and a type
//! classification, which for an application carries an optional launch
//! command. The descriptor format itself is parsed by an outside
//! collaborator; this module holds what the launcher decides about the
//! outcome: which file names are considered at all, which parse outcomes
//! make it into the launchable set, and how a chooser's answer is matched
//! back to an entry.

use vstd::prelude::*;
use vstd::string::StrSliceExecFns;

verus! {

/// The type classification of a descriptor: an application, which may name
/// a launch command, or anything else (a link, a directory grouping, ...),
/// which the launcher never offers.
pub enum EntryKind {
    Application { command: Option<String> },
    Other,
}

/// One parsed descriptor: the display name shown to the user, and its
/// classification.
pub struct Entry {
    pub name: String,
    pub kind: EntryKind,
}

impl Entry {
    /// Whether this entry represents a runnable program.
    pub open spec fn spec_is_application(&self) -> bool {
        self.kind is Application
    }

    /// Whether this entry represents a runnable program.
    pub fn is_application(&self) -> (r: bool)
        ensures
            r == self.spec_is_application(),
    {
        match &self.kind {
            EntryKind::Application { .. } => true,
            EntryKind::Other => false,
        }
    }
}

/// The literal extension that marks a descriptor file.
pub open spec fn desktop_suffix() -> Seq<char> {
    seq!['.', 'd', 'e', 's', 'k', 't', 'o', 'p']
}

/// A file name that discovery considers: it ends in `.desktop`, with at
/// least one character of stem before the extension.
pub open spec fn is_desktop_file_name(name: Seq<char>) -> bool {
    name.len() > 8 && name.subrange(name.len() - 8, name.len() as int) == desktop_suffix()
}

/// Whether discovery considers a file of this name at all.
pub fn has_desktop_extension(name: &str) -> (r: bool)
    ensures
        r == is_desktop_file_name(name@),
{
    let n: usize = name.unicode_len();
    if n <= 8 {
        return false;
    }
    let r = name.get_char(n - 8) == '.' && name.get_char(n - 7) == 'd' && name.get_char(n - 6)
        == 'e' && name.get_char(n - 5) == 's' && name.get_char(n - 4) == 'k' && name.get_char(
        n - 3,
    ) == 't' && name.get_char(n - 2) == 'o' && name.get_char(n - 1) == 'p';
    proof {
        let tail = name@.subrange(name@.len() - 8, name@.len() as int);
        if r {
            assert(tail =~= desktop_suffix());
        } else {
            assert(tail != desktop_suffix()) by {
                if tail == desktop_suffix() {
                    assert(forall|k: int| 0 <= k < 8 ==> tail[k] == desktop_suffix()[k]);
                }
            }
        }
    }
    r
}

/// One candidate file seen during discovery: its name, and — where the
/// name qualified and the file could be read and parsed — the entry the
/// descriptor parser produced. `None` stands for a file that was skipped,
/// unreadable, or malformed.
pub struct Candidate {
    pub name: String,
    pub parsed: Option<Entry>,
}

/// The launchable set a sequence of candidate files yields: the parsed,
/// application-typed entries of `.desktop`-named files, in listing order.
pub open spec fn discovered(cands: Seq<Candidate>) -> Seq<Entry>
    decreases cands.len(),
{
    if cands.len() == 0 {
        seq![]
    } else {
        let init = discovered(cands.drop_last());
        let c = cands.last();
        match c.parsed {
            Some(e) => if is_desktop_file_name(c.name@) && e.spec_is_application() {
                init.push(e)
            } else {
                init
            },
            None => init,
        }
    }
}

/// Build the launchable entry set from the candidate files, in listing
/// order: exactly the application-typed parse outcomes of `.desktop`-named
/// files; malformed or skipped files and non-application entries
/// contribute nothing.
pub fn collect_entries(cands: Vec<Candidate>) -> (r: Vec<Entry>)
    ensures
        r@ == discovered(cands@),
{
    let ghost all = cands@;
    let ghost mut done: Seq<Candidate> = Seq::empty();
    let mut rest = cands;
    let mut out: Vec<Entry> = Vec::new();
    while rest.len() > 0
        invariant
            all == done + rest@,
            out@ == discovered(done),
        decreases rest.len(),
    {
        let c = rest.remove(0);
        if has_desktop_extension(c.name.as_str()) {
            match c.parsed {
                Some(e) => {
                    if e.is_application() {
                        out.push(e);
                    }
                },
                None => {},
            }
        }
        proof {
            let stepped = done.push(c);
            assert(stepped.drop_last() =~= done);
            assert(all =~= stepped + rest@);
            done = stepped;
        }
    }
    proof {
        assert(done =~= all);
    }
    out
}

/// Every entry that discovery yields is application-typed: files that
/// failed to parse and entries of any other classification contribute
/// nothing to the launchable set.
pub proof fn lemma_discovered_applications(cands: Seq<Candidate>)
    ensures
        forall|k: int| 0 <= k < discovered(cands).len() ==> (#[trigger] discovered(
            cands,
        )[k]).spec_is_application(),
    decreases cands.len(),
{
    if cands.len() > 0 {
        lemma_discovered_applications(cands.drop_last());
        let init = discovered(cands.drop_last());
        assert forall|k: int| 0 <= k < discovered(cands).len() implies (#[trigger] discovered(
            cands,
        )[k]).spec_is_application() by {
            if k < init.len() {
                assert(discovered(cands)[k] == init[k]);
            }
        }
    }
}

/// The index of the first entry whose display name equals the chooser's
/// answer, byte for byte; `None` when no entry carries that name. Two
/// entries may share a name: the earlier one wins, deterministically.
pub fn find_entry(entries: &Vec<Entry>, choice: &str) -> (r: Option<usize>)
    ensures
        match r {
            Some(i) => i < entries.len() && entries@[i as int].name@ == choice@ && forall|j: int|
                0 <= j < i ==> entries@[j].name@ != choice@,
            None => forall|j: int| 0 <= j < entries@.len() ==> entries@[j].name@ != choice@,
        },
{
    let wanted: String = choice.to_owned();
    let mut i: usize = 0;
    while i < entries.len()
        invariant
            i <= entries.len(),
            wanted@ == choice@,
            forall|j: int| 0 <= j < i ==> entries@[j].name@ != choice@,
        decreases entries.len() - i,
    {
        if entries[i].name == wanted {
            return Some(i);
        }
        i = i + 1;
    }
    None
}

} // verus!
