//! Error values handed back by the graph operations.
use vstd::prelude::*;
use vstd::std_specs::convert::FromSpecImpl;
use vstd::string::{to_string_from_display_ensures, StringExecFns};

verus! {

/// Outcome of a fallible graph operation.
pub type RainResult<T> = Result<T, RainError>;

/// Error codes as indicator what happened.
#[derive(Debug, Clone, Copy, PartialEq, Eq, Structural)]
pub enum ErrorType {
    /// The error originates from another error.
    Other,
    /// The line does not exist and cannot be removed.
    LineDoesNotExist,
    /// Could not retrieve the actual terminal dimensions.
    TerminalDimensions,
}

/// Declares `std::io::Error`, which is carried through as the cause of an
/// error and never looked into.
#[verifier::external_type_specification]
#[verifier::external_body]
pub struct ExIoError(std::io::Error);

/// Representation for an error of the library.
#[derive(Debug)]
pub struct RainError {
    /// The error variant.
    pub code: ErrorType,
    /// Additional description for the error.
    pub description: String,
    /// The cause for this error.
    pub cause: Option<std::io::Error>,
}

impl ErrorType {
    /// The variant's name as text.
    pub open spec fn name(self) -> Seq<char> {
        match self {
            ErrorType::Other => "Other"@,
            ErrorType::LineDoesNotExist => "LineDoesNotExist"@,
            ErrorType::TerminalDimensions => "TerminalDimensions"@,
        }
    }

    /// Returns the variant's name.
    pub fn as_str(self) -> (s: &'static str)
        ensures
            s@ == self.name(),
    {
        match self {
            ErrorType::Other => "Other",
            ErrorType::LineDoesNotExist => "LineDoesNotExist",
            ErrorType::TerminalDimensions => "TerminalDimensions",
        }
    }
}

impl RainError {
    /// The one-line rendering of an error with the given code and description.
    pub open spec fn message_of(code: ErrorType, description: Seq<char>) -> Seq<char> {
        "Code: "@ + code.name() + ", Description: "@ + description
    }

    /// Renders the error as `Code: <code>, Description: <description>`.
    pub fn message(&self) -> (s: String)
        ensures
            s@ == Self::message_of(self.code, self.description@),
    {
        let mut s = String::from_str("Code: ");
        s.append(self.code.as_str());
        s.append(", Description: ");
        s.append(self.description.as_str());
        s
    }
}

/// Builds an error from a code and a description; it has no cause.
pub fn bail(code: ErrorType, description: &str) -> (e: RainError)
    ensures
        e.code == code,
        e.description@ == description@,
        e.cause is None,
{
    RainError { code, description: description.to_owned(), cause: None }
}

impl From<std::io::Error> for RainError {
    /// Wraps an I/O error: the code is `Other`, the description is the text
    /// that the error displays, and the error itself is kept as the cause.
    fn from(err: std::io::Error) -> (e: RainError)
        ensures
            e.code == ErrorType::Other,
            to_string_from_display_ensures::<std::io::Error>(&err, e.description),
            e.cause == Some(err),
    {
        let description = err.to_string();
        RainError { code: ErrorType::Other, description, cause: Some(err) }
    }
}

/// The text of an I/O error comes from the standard library and has no closed
/// form, so the conversion is described by the contract of `from` alone.
impl FromSpecImpl<std::io::Error> for RainError {
    open spec fn obeys_from_spec() -> bool {
        false
    }

    open spec fn from_spec(err: std::io::Error) -> RainError {
        arbitrary()
    }
}

} // verus!
