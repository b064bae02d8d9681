//! What one run does, decided from its arguments.

use crate::text::{option_text, texts};
use vstd::prelude::*;

verus! {

/// The one thing that a run does.
#[derive(Clone, Copy, Debug, PartialEq, Eq, Structural)]
pub enum Action {
    /// Print today's entries.
    List,
    /// Record the message as one more line of today's log.
    Append,
    /// The message is empty: leave the log as it is, and say nothing.
    Skip,
    /// Open today's log in an editor and wait until it is closed.
    Edit,
}

/// The action for the given arguments: `edit` asks for the editor, whatever
/// else is given; a message is recorded unless it is empty; with neither,
/// the day is listed.
pub open spec fn action_for(edit: bool, message: Option<Seq<char>>) -> Action {
    if edit {
        Action::Edit
    } else {
        match message {
            None => Action::List,
            Some(text) => if text.len() == 0 {
                Action::Skip
            } else {
                Action::Append
            },
        }
    }
}

/// Decides what the run does: `edit` tells whether the `edit` subcommand was
/// given, `message` is the positional argument, if there is one.
pub fn plan(edit: bool, message: Option<&str>) -> (action: Action)
    ensures
        action == action_for(edit, option_text(message)),
{
    if edit {
        Action::Edit
    } else {
        match message {
            None => Action::List,
            Some(text) => if text.is_empty() {
                Action::Skip
            } else {
                Action::Append
            },
        }
    }
}

/// The words joined into one message, with one space between neighbours.
pub open spec fn joined_words(words: Seq<Seq<char>>) -> Seq<char>
    decreases words.len(),
{
    if words.len() == 0 {
        Seq::empty()
    } else if words.len() == 1 {
        words[0]
    } else {
        joined_words(words.drop_last()) + seq![' '] + words.last()
    }
}

/// The message that several arguments make together: the arguments in
/// order, one space between each two. No argument gives the empty message,
/// which is then skipped like any other empty message.
pub fn join_words(words: &Vec<String>) -> (message: String)
    ensures
        message@ == joined_words(texts(words@)),
{
    let mut message: String = String::new();
    let count: usize = words.len();
    let mut done: usize = 0;
    assert(texts(words@).take(0) =~= Seq::<Seq<char>>::empty());
    while done < count
        invariant
            count == words@.len(),
            done <= count,
            message@ == joined_words(texts(words@).take(done as int)),
        decreases count - done,
    {
        proof {
            let before = texts(words@).take(done as int);
            let after = texts(words@).take(done + 1);
            assert(after.drop_last() =~= before);
            assert(after.last() == words@[done as int]@);
            reveal_strlit(" ");
            assert(" "@ =~= seq![' ']);
            if done == 0 {
                assert(Seq::<char>::empty() + words@[0]@ =~= words@[0]@);
            }
        }
        if done > 0 {
            message.append(" ");
        }
        message.append(words[done].as_str());
        done = done + 1;
    }
    assert(texts(words@).take(count as int) =~= texts(words@));
    message
}

} // verus!
