use crate::text::copy_of;
use crate::text::join;
use vstd::prelude::*;

verus! {

/// Why the configuration could not be had.
#[derive(Debug, PartialEq, Eq)]
pub enum ConfigError {
    /// The file could not be read.
    IoError { message: String },
    /// The file does not hold a configuration.
    DeserializationError { message: String },
}

/// A `ConfigError` with its message as a character sequence.
pub enum ConfigFailure {
    IoError { message: Seq<char> },
    DeserializationError { message: Seq<char> },
}

impl View for ConfigError {
    type V = ConfigFailure;

    open spec fn view(&self) -> ConfigFailure {
        match *self {
            ConfigError::IoError { message } => ConfigFailure::IoError { message: message@ },
            ConfigError::DeserializationError { message } => ConfigFailure::DeserializationError {
                message: message@,
            },
        }
    }
}

impl ConfigFailure {
    /// The short name of the failure.
    pub open spec fn description(self) -> Seq<char> {
        match self {
            ConfigFailure::IoError { .. } => "IO error"@,
            ConfigFailure::DeserializationError { .. } => "Deserialization error"@,
        }
    }

    /// The failure as it is shown to a reader.
    pub open spec fn display(self) -> Seq<char> {
        match self {
            ConfigFailure::IoError { message } => "IO error: "@ + message,
            ConfigFailure::DeserializationError { message } => "Deserialization error: "@ + message,
        }
    }
}

impl ConfigError {
    pub fn io_error(message: &str) -> (error: ConfigError)
        ensures
            error@ == (ConfigFailure::IoError { message: message@ }),
    {
        ConfigError::IoError { message: copy_of(message) }
    }

    pub fn deserialization_error(message: &str) -> (error: ConfigError)
        ensures
            error@ == (ConfigFailure::DeserializationError { message: message@ }),
    {
        ConfigError::DeserializationError { message: copy_of(message) }
    }

    /// The short name of the error.
    pub fn description(&self) -> (text: String)
        ensures
            text@ == self@.description(),
    {
        match self {
            ConfigError::IoError { .. } => copy_of("IO error"),
            ConfigError::DeserializationError { .. } => copy_of("Deserialization error"),
        }
    }

    /// The error as it is shown to a reader.
    pub fn to_string(&self) -> (text: String)
        ensures
            text@ == self@.display(),
    {
        match self {
            ConfigError::IoError { message } => join("IO error: ", message.as_str()),
            ConfigError::DeserializationError { message } => join(
                "Deserialization error: ",
                message.as_str(),
            ),
        }
    }
}

} // verus!
