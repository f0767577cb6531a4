use crate::mercurial::MercurialError;
use crate::perforce::PerforceError;
use crate::text::copy_of;
use crate::text::join;
use vstd::prelude::*;

verus! {

/// Why the migration of one mapping failed: the side that failed, with the short name of
/// its error.
#[derive(Debug, PartialEq, Eq)]
pub enum WorkerError {
    MercurialError { message: String },
    PerforceError { message: String },
}

/// A `WorkerError` with its message as a character sequence.
pub enum WorkerFailure {
    MercurialError { message: Seq<char> },
    PerforceError { message: Seq<char> },
}

impl View for WorkerError {
    type V = WorkerFailure;

    open spec fn view(&self) -> WorkerFailure {
        match *self {
            WorkerError::MercurialError { message } => WorkerFailure::MercurialError {
                message: message@,
            },
            WorkerError::PerforceError { message } => WorkerFailure::PerforceError {
                message: message@,
            },
        }
    }
}

impl WorkerFailure {
    /// The short name of the failure.
    pub open spec fn description(self) -> Seq<char> {
        match self {
            WorkerFailure::MercurialError { .. } => "Mercurial error"@,
            WorkerFailure::PerforceError { .. } => "Perforce error"@,
        }
    }

    /// The failure as it is shown to a reader.
    pub open spec fn display(self) -> Seq<char> {
        match self {
            WorkerFailure::MercurialError { message } => "Mercurial error: "@ + message,
            WorkerFailure::PerforceError { message } => "Perforce error: "@ + message,
        }
    }
}

impl WorkerError {
    pub fn mercurial_error(error: MercurialError) -> (failure: WorkerError)
        ensures
            failure@ == (WorkerFailure::MercurialError { message: error@.description() }),
    {
        WorkerError::MercurialError { message: error.description() }
    }

    pub fn perforce_error(error: PerforceError) -> (failure: WorkerError)
        ensures
            failure@ == (WorkerFailure::PerforceError { message: error@.description() }),
    {
        WorkerError::PerforceError { message: error.description() }
    }

    /// The short name of the error.
    pub fn description(&self) -> (text: String)
        ensures
            text@ == self@.description(),
    {
        match self {
            WorkerError::MercurialError { .. } => copy_of("Mercurial error"),
            WorkerError::PerforceError { .. } => copy_of("Perforce error"),
        }
    }

    /// The error as it is shown to a reader.
    pub fn to_string(&self) -> (text: String)
        ensures
            text@ == self@.display(),
    {
        match self {
            WorkerError::MercurialError { message } => join("Mercurial error: ", message.as_str()),
            WorkerError::PerforceError { message } => join("Perforce error: ", message.as_str()),
        }
    }
}

} // verus!
