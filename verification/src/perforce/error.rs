use crate::text::copy_of;
use vstd::prelude::*;

verus! {

/// Why an operation on the depot failed.
#[derive(Debug, PartialEq, Eq)]
pub enum PerforceError {
    /// Waiting for the depot program failed.
    IoError { message: String },
    /// The depot program could not be started.
    ExecutionError { message: String },
    /// Reading from or writing to the depot program failed.
    CommunicationError { message: String },
    /// The depot program ran and reported failure.
    ExitError { exit_code: Option<i32> },
    /// The description of a change lacks one of its fields.
    IncorrectChange { commit: u32 },
    /// The depot handed out no ticket.
    LoginFailed,
    /// The operation needs a session and there is none.
    NotLoggedIn,
    /// A change number could not be read.
    ParsingChangeFailed,
    /// The date of a change could not be read.
    DateParseError { message: String },
}

/// A `PerforceError` with its messages as character sequences. The message of a date that
/// could not be read is left out: it is what the `time` crate says of the date.
pub enum PerforceFailure {
    IoError { message: Seq<char> },
    ExecutionError { message: Seq<char> },
    CommunicationError { message: Seq<char> },
    ExitError { exit_code: Option<i32> },
    IncorrectChange { commit: u32 },
    LoginFailed,
    NotLoggedIn,
    ParsingChangeFailed,
    DateParseError,
}

impl View for PerforceError {
    type V = PerforceFailure;

    open spec fn view(&self) -> PerforceFailure {
        match *self {
            PerforceError::IoError { message } => PerforceFailure::IoError { message: message@ },
            PerforceError::ExecutionError { message } => PerforceFailure::ExecutionError {
                message: message@,
            },
            PerforceError::CommunicationError { message } => PerforceFailure::CommunicationError {
                message: message@,
            },
            PerforceError::ExitError { exit_code } => PerforceFailure::ExitError { exit_code },
            PerforceError::IncorrectChange { commit } => PerforceFailure::IncorrectChange {
                commit,
            },
            PerforceError::LoginFailed => PerforceFailure::LoginFailed,
            PerforceError::NotLoggedIn => PerforceFailure::NotLoggedIn,
            PerforceError::ParsingChangeFailed => PerforceFailure::ParsingChangeFailed,
            PerforceError::DateParseError { .. } => PerforceFailure::DateParseError,
        }
    }
}

impl PerforceFailure {
    /// The short name of the failure, which is also how it is displayed.
    pub open spec fn description(self) -> Seq<char> {
        match self {
            PerforceFailure::IoError { .. } => "IO error"@,
            PerforceFailure::ExecutionError { .. } => "Execution error"@,
            PerforceFailure::CommunicationError { .. } => "Communication error"@,
            PerforceFailure::ExitError { .. } => "Exit error"@,
            PerforceFailure::IncorrectChange { .. } => "Incorrect change"@,
            PerforceFailure::LoginFailed => "Login failed"@,
            PerforceFailure::NotLoggedIn => "Not logged in"@,
            PerforceFailure::ParsingChangeFailed => "Parsing change failed"@,
            PerforceFailure::DateParseError => "Time parse error"@,
        }
    }
}

impl PerforceError {
    pub fn io_error(message: &str) -> (error: PerforceError)
        ensures
            error@ == (PerforceFailure::IoError { message: message@ }),
    {
        PerforceError::IoError { message: copy_of(message) }
    }

    pub fn execution_error(message: &str) -> (error: PerforceError)
        ensures
            error@ == (PerforceFailure::ExecutionError { message: message@ }),
    {
        PerforceError::ExecutionError { message: copy_of(message) }
    }

    pub fn communication_error(message: &str) -> (error: PerforceError)
        ensures
            error@ == (PerforceFailure::CommunicationError { message: message@ }),
    {
        PerforceError::CommunicationError { message: copy_of(message) }
    }

    pub fn exit_error(exit_code: Option<i32>) -> (error: PerforceError)
        ensures
            error@ == (PerforceFailure::ExitError { exit_code }),
    {
        PerforceError::ExitError { exit_code }
    }

    pub fn incorrect_change(commit: u32) -> (error: PerforceError)
        ensures
            error@ == (PerforceFailure::IncorrectChange { commit }),
    {
        PerforceError::IncorrectChange { commit }
    }

    /// The error for a date that `time` could not read, with the words that `time` has for
    /// it.
    pub fn date_parse_error(error: time::ParseError) -> (failure: PerforceError)
        ensures
            failure@ == PerforceFailure::DateParseError,
    {
        PerforceError::DateParseError { message: crate::date::parse_error_text(&error) }
    }

    /// The short name of the error.
    pub fn description(&self) -> (text: String)
        ensures
            text@ == self@.description(),
    {
        match self {
            PerforceError::IoError { .. } => copy_of("IO error"),
            PerforceError::ExecutionError { .. } => copy_of("Execution error"),
            PerforceError::CommunicationError { .. } => copy_of("Communication error"),
            PerforceError::ExitError { .. } => copy_of("Exit error"),
            PerforceError::IncorrectChange { .. } => copy_of("Incorrect change"),
            PerforceError::LoginFailed => copy_of("Login failed"),
            PerforceError::NotLoggedIn => copy_of("Not logged in"),
            PerforceError::ParsingChangeFailed => copy_of("Parsing change failed"),
            PerforceError::DateParseError { .. } => copy_of("Time parse error"),
        }
    }

    /// The error as it is shown to a reader: its short name.
    pub fn to_string(&self) -> (text: String)
        ensures
            text@ == self@.description(),
    {
        self.description()
    }
}

} // verus!
