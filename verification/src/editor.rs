//! Which editor opens today's file: the user's choice first, then two
//! editors that most systems have, each tried in turn until one starts.

use crate::failure::Failure;
use crate::text::{option_text, texts};
use vstd::prelude::*;

verus! {

/// The editors that are tried after the user's own choice, in this order.
pub open spec fn fallback_editors() -> Seq<Seq<char>> {
    seq!["vim"@, "vi"@]
}

/// The commands to try, in order: the user's choice, where there is one,
/// then the fallbacks.
pub open spec fn editor_candidates(preferred: Option<Seq<char>>) -> Seq<Seq<char>> {
    match preferred {
        Some(command) => seq![command] + fallback_editors(),
        None => fallback_editors(),
    }
}

/// How far the search for an editor has come.
#[derive(Clone, Copy, Debug, PartialEq, Eq, Structural)]
pub enum Progress {
    /// The candidate at this index is the next to be started.
    Trying(usize),
    /// The candidate at this index has started: it runs until the user
    /// closes it, and nothing else is started.
    Started(usize),
    /// Every candidate failed to start.
    Exhausted,
}

/// Where the search stands after the attempt to start the current candidate
/// has come back, `count` being the number of candidates. A start ends the
/// search; a failure moves it to the next candidate, or ends it where none
/// is left. A search that has ended stays as it is.
pub open spec fn after_attempt(progress: Progress, count: nat, started: bool) -> Progress {
    match progress {
        Progress::Trying(index) => if started {
            Progress::Started(index)
        } else if index + 1 < count {
            Progress::Trying((index + 1) as usize)
        } else {
            Progress::Exhausted
        },
        _ => progress,
    }
}

/// Where a search stands after a run of attempts, `attempts[k]` telling
/// whether the `k`-th attempt started its candidate.
pub open spec fn after_attempts(progress: Progress, count: nat, attempts: Seq<bool>) -> Progress
    decreases attempts.len(),
{
    if attempts.len() == 0 {
        progress
    } else {
        after_attempt(after_attempts(progress, count, attempts.drop_last()), count, attempts.last())
    }
}

/// Whether `index` is the first candidate that starts, `starts[k]` telling
/// whether the `k`-th candidate can be started.
pub open spec fn is_first_start(starts: Seq<bool>, index: int) -> bool {
    &&& 0 <= index < starts.len()
    &&& starts[index]
    &&& forall|k: int| 0 <= k < index ==> !starts[k]
}

/// The search for an editor: the candidates and how far they were tried.
pub struct EditorSearch {
    candidates: Vec<String>,
    progress: Progress,
}

impl EditorSearch {
    #[verifier::type_invariant]
    spec fn in_range(self) -> bool {
        match self.progress {
            Progress::Trying(index) => index < self.candidates.len(),
            Progress::Started(index) => index < self.candidates.len(),
            Progress::Exhausted => true,
        }
    }

    /// The commands of this search, in the order in which they are tried.
    pub closed spec fn candidates(&self) -> Seq<Seq<char>> {
        texts(self.candidates@)
    }

    /// How far this search has come.
    pub closed spec fn progress(&self) -> Progress {
        self.progress
    }

    /// The command that is to be started now: the candidate that the search
    /// is trying, while it is trying one.
    pub open spec fn pending(&self) -> Option<Seq<char>> {
        match self.progress() {
            Progress::Trying(index) => Some(self.candidates()[index as int]),
            _ => None,
        }
    }

    /// The command that has started, once one has.
    pub open spec fn running(&self) -> Option<Seq<char>> {
        match self.progress() {
            Progress::Started(index) => Some(self.candidates()[index as int]),
            _ => None,
        }
    }

    /// Whether the index that `progress` holds is that of a candidate. Every
    /// search is built and kept so.
    pub open spec fn wf(&self) -> bool {
        match self.progress() {
            Progress::Trying(index) => index < self.candidates().len(),
            Progress::Started(index) => index < self.candidates().len(),
            Progress::Exhausted => true,
        }
    }

    /// A search that has tried nothing yet. Its candidates are the
    /// `preferred` editor, where one is given, then `vim`, then `vi`.
    pub fn new(preferred: Option<&str>) -> (search: EditorSearch)
        ensures
            search.candidates() == editor_candidates(option_text(preferred)),
            search.progress() == Progress::Trying(0),
            search.wf(),
    {
        let mut candidates: Vec<String> = Vec::new();
        match preferred {
            Some(command) => {
                candidates.push(String::from_str(command));
            },
            None => {},
        }
        candidates.push(String::from_str("vim"));
        candidates.push(String::from_str("vi"));
        let search = EditorSearch { candidates, progress: Progress::Trying(0) };
        assert(search.candidates() =~= editor_candidates(option_text(preferred)));
        search
    }

    /// The command to start now, with today's file as its one argument;
    /// nothing once an editor has started or none is left.
    pub fn command(&self) -> (command: Option<&str>)
        ensures
            option_text(command) == self.pending(),
    {
        proof {
            use_type_invariant(self);
        }
        match self.progress {
            Progress::Trying(index) => Some(self.candidates[index].as_str()),
            _ => None,
        }
    }

    /// The command that was started, once one has.
    pub fn started(&self) -> (command: Option<&str>)
        ensures
            option_text(command) == self.running(),
    {
        proof {
            use_type_invariant(self);
        }
        match self.progress {
            Progress::Started(index) => Some(self.candidates[index].as_str()),
            _ => None,
        }
    }

    /// The failure to report once every candidate was tried and none
    /// started; none before that, and none once an editor runs.
    pub fn failure(&self) -> (failure: Option<Failure>)
        ensures
            failure == if self.progress() == Progress::Exhausted {
                Some(Failure::ChildProcess)
            } else {
                None
            },
    {
        match self.progress {
            Progress::Exhausted => Some(Failure::ChildProcess),
            _ => None,
        }
    }

    /// Takes in how the attempt to start the current command ended.
    pub fn attempt_ended(&mut self, started: bool)
        ensures
            final(self).candidates() == old(self).candidates(),
            final(self).progress() == after_attempt(
                old(self).progress(),
                old(self).candidates().len(),
                started,
            ),
            final(self).wf(),
    {
        proof {
            use_type_invariant(&*self);
        }
        let count: usize = self.candidates.len();
        match self.progress {
            Progress::Trying(index) => {
                if started {
                    self.progress = Progress::Started(index);
                } else if index + 1 < count {
                    self.progress = Progress::Trying(index + 1);
                } else {
                    self.progress = Progress::Exhausted;
                }
            },
            _ => {},
        }
    }
}

/// The editor that runs is the first candidate that starts, and the search
/// gives up exactly when none does: whatever the candidates do, trying them
/// one after the other from the first ends at the first that starts, or
/// exhausted.
pub proof fn lemma_first_editor_that_starts(starts: Seq<bool>)
    requires
        0 < starts.len() <= usize::MAX,
    ensures
        match after_attempts(Progress::Trying(0), starts.len(), starts) {
            Progress::Started(index) => is_first_start(starts, index as int),
            Progress::Exhausted => forall|k: int| 0 <= k < starts.len() ==> !starts[k],
            Progress::Trying(_) => false,
        },
{
    lemma_attempts_prefix(starts, starts.len() as int);
    assert(starts.take(starts.len() as int) =~= starts);
}

/// After the first `tried` attempts the search has started the first
/// candidate that starts among them, or it stands at the next candidate.
proof fn lemma_attempts_prefix(starts: Seq<bool>, tried: int)
    requires
        0 < starts.len() <= usize::MAX,
        0 <= tried <= starts.len(),
    ensures
        match after_attempts(Progress::Trying(0), starts.len(), starts.take(tried)) {
            Progress::Started(index) => index < tried && is_first_start(starts, index as int),
            Progress::Trying(index) => index == tried && tried < starts.len() && forall|k: int|
                0 <= k < tried ==> !starts[k],
            Progress::Exhausted => tried == starts.len() && forall|k: int|
                0 <= k < tried ==> !starts[k],
        },
    decreases tried,
{
    if tried > 0 {
        lemma_attempts_prefix(starts, tried - 1);
        assert(starts.take(tried).drop_last() =~= starts.take(tried - 1));
        assert(starts.take(tried).last() == starts[tried - 1]);
    }
}

} // verus!
