//! The ways in which configuration and probing fail.

use vstd::prelude::*;
use vstd::string::StringExecFns;

verus! {

/// Why a trigger or an action could not be built from its configuration.
#[derive(Debug, PartialEq, Eq)]
pub enum ConfigError {
    /// No action is registered under this name.
    UnknownAction(String),
    /// No trigger is registered under this name.
    UnknownTrigger(String),
    /// The mapping of a command action holds no text under `enter`.
    MissingEnterCommand,
    /// The value has none of the shapes that the trigger or action reads.
    UnknownFormat,
    /// A command line holds no program name.
    MissingCommandName,
}

/// A [`ConfigError`] with its names as character sequences.
pub enum ConfigFault {
    /// No action is registered under this name.
    UnknownAction(Seq<char>),
    /// No trigger is registered under this name.
    UnknownTrigger(Seq<char>),
    /// The mapping of a command action holds no text under `enter`.
    MissingEnterCommand,
    /// The value has none of the shapes that the trigger or action reads.
    UnknownFormat,
    /// A command line holds no program name.
    MissingCommandName,
}

impl View for ConfigError {
    type V = ConfigFault;

    open spec fn view(&self) -> ConfigFault {
        match self {
            ConfigError::UnknownAction(name) => ConfigFault::UnknownAction(name@),
            ConfigError::UnknownTrigger(name) => ConfigFault::UnknownTrigger(name@),
            ConfigError::MissingEnterCommand => ConfigFault::MissingEnterCommand,
            ConfigError::UnknownFormat => ConfigFault::UnknownFormat,
            ConfigError::MissingCommandName => ConfigFault::MissingCommandName,
        }
    }
}

/// What `made` stands for: the view of what was built, or of the error.
pub open spec fn outcome<T: View>(made: Result<T, ConfigError>) -> Result<T::V, ConfigFault> {
    match made {
        Ok(built) => Ok(built@),
        Err(error) => Err(error@),
    }
}

impl ConfigFault {
    /// The text that reports the fault.
    pub open spec fn message(self) -> Seq<char> {
        match self {
            ConfigFault::UnknownAction(name) => "Unknown action name '"@ + name + "'."@,
            ConfigFault::UnknownTrigger(name) => "Unknown trigger name '"@ + name + "'."@,
            ConfigFault::MissingEnterCommand => "Missing enter command key."@,
            ConfigFault::UnknownFormat => "Unknown configuration format"@,
            ConfigFault::MissingCommandName => "Missing command name."@,
        }
    }
}

impl ConfigError {
    /// The text that reports the error; an unknown name is quoted as it was
    /// written.
    pub fn message(&self) -> (text: String)
        ensures
            text@ == self@.message(),
    {
        match self {
            ConfigError::UnknownAction(name) => {
                String::from_str("Unknown action name '").concat(name.as_str()).concat("'.")
            },
            ConfigError::UnknownTrigger(name) => {
                String::from_str("Unknown trigger name '").concat(name.as_str()).concat("'.")
            },
            ConfigError::MissingEnterCommand => String::from_str("Missing enter command key."),
            ConfigError::UnknownFormat => String::from_str("Unknown configuration format"),
            ConfigError::MissingCommandName => String::from_str("Missing command name."),
        }
    }
}

/// Why the output of the probe gave no answer.
#[derive(Clone, Copy, Debug, PartialEq, Eq, Structural)]
pub enum ProbeError {
    /// The output is not UTF-8.
    NotUtf8,
    /// No line of the output names a network or says that the radio is off.
    MissingLine,
}

impl ProbeError {
    /// The text that reports the error.
    pub open spec fn spec_message(self) -> Seq<char> {
        match self {
            ProbeError::NotUtf8 => "Got non-UTF-8 output from airport utility"@,
            ProbeError::MissingLine => "Missing SSID or AirPort line"@,
        }
    }

    /// The text that reports the error.
    pub fn message(&self) -> (text: &'static str)
        ensures
            text@ == self.spec_message(),
    {
        match self {
            ProbeError::NotUtf8 => "Got non-UTF-8 output from airport utility",
            ProbeError::MissingLine => "Missing SSID or AirPort line",
        }
    }
}

} // verus!
