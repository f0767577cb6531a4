use crate::text::copy_of;
use crate::text::join;
use crate::text::push_signed_decimal;
use crate::text::signed_decimal;
use vstd::prelude::*;

verus! {

/// Why an operation on the repository failed.
#[derive(Debug, PartialEq, Eq)]
pub enum MercurialError {
    /// Waiting for the repository program failed.
    IoError { message: String },
    /// The repository program could not be started.
    ExecutionError { message: String },
    /// Reading from the repository program failed.
    CommunicationError { message: String },
    /// The repository program ran and reported failure.
    ExitError { exit_code: Option<i32> },
    /// The number behind a marker could not be read.
    ChangeParseError { message: String },
    /// The date of a commit could not be written.
    DateFormatError { message: String },
    /// The size of a file could not be read.
    ReadMetadataError { message: String },
}

/// A `MercurialError` with its messages as character sequences.
pub enum MercurialFailure {
    IoError { message: Seq<char> },
    ExecutionError { message: Seq<char> },
    CommunicationError { message: Seq<char> },
    ExitError { exit_code: Option<i32> },
    ChangeParseError { message: Seq<char> },
    DateFormatError { message: Seq<char> },
    ReadMetadataError { message: Seq<char> },
}

impl View for MercurialError {
    type V = MercurialFailure;

    open spec fn view(&self) -> MercurialFailure {
        match *self {
            MercurialError::IoError { message } => MercurialFailure::IoError { message: message@ },
            MercurialError::ExecutionError { message } => MercurialFailure::ExecutionError {
                message: message@,
            },
            MercurialError::CommunicationError { message } => MercurialFailure::CommunicationError {
                message: message@,
            },
            MercurialError::ExitError { exit_code } => MercurialFailure::ExitError { exit_code },
            MercurialError::ChangeParseError { message } => MercurialFailure::ChangeParseError {
                message: message@,
            },
            MercurialError::DateFormatError { message } => MercurialFailure::DateFormatError {
                message: message@,
            },
            MercurialError::ReadMetadataError { message } => MercurialFailure::ReadMetadataError {
                message: message@,
            },
        }
    }
}

impl MercurialFailure {
    /// The short name of the failure.
    pub open spec fn description(self) -> Seq<char> {
        match self {
            MercurialFailure::IoError { .. } => "IO error"@,
            MercurialFailure::ExecutionError { .. } => "Execution error"@,
            MercurialFailure::CommunicationError { .. } => "Communication error"@,
            MercurialFailure::ExitError { .. } => "Exit error"@,
            MercurialFailure::ChangeParseError { .. } => "Change parse error"@,
            MercurialFailure::DateFormatError { .. } => "Date format error"@,
            MercurialFailure::ReadMetadataError { .. } => "Read metadata error"@,
        }
    }

    /// The failure as it is shown to a reader: its short name, then its message or its exit
    /// code where it has one.
    pub open spec fn display(self) -> Seq<char> {
        match self {
            MercurialFailure::IoError { message } => "IO error: "@ + message,
            MercurialFailure::ExecutionError { message } => "Execution error: "@ + message,
            MercurialFailure::CommunicationError { message } => "Communication error: "@ + message,
            MercurialFailure::ExitError { exit_code: Some(code) } => "Exit error (code = "@
                + signed_decimal(code as int) + ")"@,
            MercurialFailure::ExitError { exit_code: None } => "Exit error"@,
            MercurialFailure::ChangeParseError { message } => "Change parse error: "@ + message,
            MercurialFailure::DateFormatError { message } => "Date format error: "@ + message,
            MercurialFailure::ReadMetadataError { message } => "Read metadata error: "@ + message,
        }
    }
}

impl MercurialError {
    pub fn io_error(message: &str) -> (error: MercurialError)
        ensures
            error@ == (MercurialFailure::IoError { message: message@ }),
    {
        MercurialError::IoError { message: copy_of(message) }
    }

    pub fn execution_error(message: &str) -> (error: MercurialError)
        ensures
            error@ == (MercurialFailure::ExecutionError { message: message@ }),
    {
        MercurialError::ExecutionError { message: copy_of(message) }
    }

    pub fn communication_error(message: &str) -> (error: MercurialError)
        ensures
            error@ == (MercurialFailure::CommunicationError { message: message@ }),
    {
        MercurialError::CommunicationError { message: copy_of(message) }
    }

    pub fn exit_error(exit_code: Option<i32>) -> (error: MercurialError)
        ensures
            error@ == (MercurialFailure::ExitError { exit_code }),
    {
        MercurialError::ExitError { exit_code }
    }

    pub fn change_parse_error(message: &str) -> (error: MercurialError)
        ensures
            error@ == (MercurialFailure::ChangeParseError { message: message@ }),
    {
        MercurialError::ChangeParseError { message: copy_of(message) }
    }

    /// The error for a date that `time` could not write, with the words that `time` has for
    /// it.
    pub fn date_format_error(error: time::ParseError) -> (failure: MercurialError)
        ensures
            failure@ is DateFormatError,
    {
        MercurialError::DateFormatError { message: crate::date::parse_error_text(&error) }
    }

    pub fn read_metadata_error(message: &str) -> (error: MercurialError)
        ensures
            error@ == (MercurialFailure::ReadMetadataError { message: message@ }),
    {
        MercurialError::ReadMetadataError { message: copy_of(message) }
    }

    /// The short name of the error.
    pub fn description(&self) -> (text: String)
        ensures
            text@ == self@.description(),
    {
        match self {
            MercurialError::IoError { .. } => copy_of("IO error"),
            MercurialError::ExecutionError { .. } => copy_of("Execution error"),
            MercurialError::CommunicationError { .. } => copy_of("Communication error"),
            MercurialError::ExitError { .. } => copy_of("Exit error"),
            MercurialError::ChangeParseError { .. } => copy_of("Change parse error"),
            MercurialError::DateFormatError { .. } => copy_of("Date format error"),
            MercurialError::ReadMetadataError { .. } => copy_of("Read metadata error"),
        }
    }

    /// The error as it is shown to a reader.
    pub fn to_string(&self) -> (text: String)
        ensures
            text@ == self@.display(),
    {
        match self {
            MercurialError::IoError { message } => join("IO error: ", message.as_str()),
            MercurialError::ExecutionError { message } => join(
                "Execution error: ",
                message.as_str(),
            ),
            MercurialError::CommunicationError { message } => join(
                "Communication error: ",
                message.as_str(),
            ),
            MercurialError::ExitError { exit_code: Some(code) } => {
                let mut text = copy_of("Exit error (code = ");
                push_signed_decimal(&mut text, *code);
                join(text.as_str(), ")")
            },
            MercurialError::ExitError { exit_code: None } => copy_of("Exit error"),
            MercurialError::ChangeParseError { message } => join(
                "Change parse error: ",
                message.as_str(),
            ),
            MercurialError::DateFormatError { message } => join(
                "Date format error: ",
                message.as_str(),
            ),
            MercurialError::ReadMetadataError { message } => join(
                "Read metadata error: ",
                message.as_str(),
            ),
        }
    }
}

} // verus!
