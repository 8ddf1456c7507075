use vstd::prelude::*;

verus! {

/// Generation-time failures of the command template compiler.
#[derive(Debug, Clone, Copy, PartialEq, Eq, Structural)]
pub enum GenError {
    /// The template has no whitespace separating the command name from its
    /// arguments.
    MalformedCommand,
    /// An optional group was opened with `[` but never closed with `]`.
    MismatchedBracket,
}

/// Ghost mirror of [`Error`]: the same variants over sequences of characters.
pub enum ErrorV {
    InvalidElement(Seq<char>),
    MissingRequiredValue(Seq<char>),
    InterpolationFailure(Seq<char>),
    ConditionFailure(Seq<char>),
    CommandExecutionFailure(Seq<char>),
}

/// Runtime failures raised while a job document is parsed or a task is run.
/// Each variant carries the name or text that identifies the offending input.
#[derive(Debug, Clone, PartialEq, Eq)]
pub enum Error {
    /// A document node whose name is neither `item` nor `group`.
    InvalidElement(String),
    /// A required attribute resolved to no value.
    MissingRequiredValue(String),
    /// A `{name}` placeholder referenced a variable that was not provided.
    InterpolationFailure(String),
    /// A condition expression could not be evaluated to a boolean.
    ConditionFailure(String),
    /// An external command exited with a non-zero status; carries its error
    /// output.
    CommandExecutionFailure(String),
}

impl View for Error {
    type V = ErrorV;

    open spec fn view(&self) -> ErrorV {
        match self {
            Error::InvalidElement(s) => ErrorV::InvalidElement(s@),
            Error::MissingRequiredValue(s) => ErrorV::MissingRequiredValue(s@),
            Error::InterpolationFailure(s) => ErrorV::InterpolationFailure(s@),
            Error::ConditionFailure(s) => ErrorV::ConditionFailure(s@),
            Error::CommandExecutionFailure(s) => ErrorV::CommandExecutionFailure(s@),
        }
    }
}

impl Error {
    /// A human-readable description of the failure.
    pub fn message(&self) -> (r: String)
        ensures
            r@ == self.spec_message(),
    {
        match self {
            Error::InvalidElement(s) => String::from_str("Invalid element: ").concat(s.as_str()),
            Error::MissingRequiredValue(s) => String::from_str("Missing required value: ").concat(
                s.as_str(),
            ),
            Error::InterpolationFailure(s) => String::from_str(
                "Variable was not provided: ",
            ).concat(s.as_str()),
            Error::ConditionFailure(s) => String::from_str(
                "Condition did not evaluate to a boolean: ",
            ).concat(s.as_str()),
            Error::CommandExecutionFailure(s) => String::from_str("Command failed: ").concat(
                s.as_str(),
            ),
        }
    }

    pub open spec fn spec_message(self) -> Seq<char> {
        match self {
            Error::InvalidElement(s) => "Invalid element: "@ + s@,
            Error::MissingRequiredValue(s) => "Missing required value: "@ + s@,
            Error::InterpolationFailure(s) => "Variable was not provided: "@ + s@,
            Error::ConditionFailure(s) => "Condition did not evaluate to a boolean: "@ + s@,
            Error::CommandExecutionFailure(s) => "Command failed: "@ + s@,
        }
    }
}

} // verus!
