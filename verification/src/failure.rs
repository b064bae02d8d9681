//! The ways in which a run can fail. Each is fatal: nothing is retried, and
//! the run ends with a message and a status that is not zero.

use vstd::prelude::*;

verus! {

/// Why a run could not do what was asked.
#[derive(Clone, Copy, Debug, PartialEq, Eq, Structural)]
pub enum Failure {
    /// The home directory could not be determined, so there is no data root.
    Configuration,
    /// The data root or the day's file could not be created, opened, read or
    /// written.
    Filesystem,
    /// No editor could be started.
    ChildProcess,
}

/// The status of a run that did what was asked.
pub const EXIT_SUCCESS: u8 = 0u8;

/// The status of a run that failed.
pub const EXIT_FAILURE: u8 = 1u8;

impl Failure {
    /// What the user is told.
    pub open spec fn message_text(self) -> Seq<char> {
        match self {
            Failure::Configuration => "$HOME must be set"@,
            Failure::Filesystem => "The log file or its directory could not be created, opened, read or written."@,
            Failure::ChildProcess => "Failed to start editor. Ensure $EDITOR is set or vim is installed."@,
        }
    }

    /// The message for the error stream.
    pub fn message(&self) -> (text: String)
        ensures
            text@ == self.message_text(),
    {
        match self {
            Failure::Configuration => String::from_str("$HOME must be set"),
            Failure::Filesystem => String::from_str(
                "The log file or its directory could not be created, opened, read or written.",
            ),
            Failure::ChildProcess => String::from_str(
                "Failed to start editor. Ensure $EDITOR is set or vim is installed.",
            ),
        }
    }
}

/// The status with which a run ends: zero when it did what was asked, one
/// on any failure.
pub fn exit_status(outcome: Result<(), Failure>) -> (status: u8)
    ensures
        outcome is Ok ==> status == EXIT_SUCCESS,
        outcome is Err ==> status == EXIT_FAILURE,
{
    match outcome {
        Ok(_) => EXIT_SUCCESS,
        Err(_) => EXIT_FAILURE,
    }
}

} // verus!
