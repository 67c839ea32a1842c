//! The errors of an expansion, each with the location of the offending token.

use crate::token::Location;
use vstd::prelude::*;
use vstd::string::StringExecFns;

verus! {

/// Why an expansion was given up.
#[derive(Debug, PartialEq, Eq)]
pub enum ExpandError {
    /// The input is not of the form `variable in start..end { body }`.
    MalformedTemplate { location: Location },
    /// A prefix and its `~` are not followed by the iteration variable.
    ExpectedVariableAfterTilde { variable: String, location: Location },
    /// The `~` behind the iteration variable is not followed by an identifier.
    ExpectedIdentifierAfterTilde { location: Location },
    /// A repeated region stands inside another repeated region.
    UnsupportedConstruct { location: Location },
}

/// The mathematical value of an [`ExpandError`].
pub enum ErrorView {
    MalformedTemplate { location: Location },
    ExpectedVariableAfterTilde { variable: Seq<char>, location: Location },
    ExpectedIdentifierAfterTilde { location: Location },
    UnsupportedConstruct { location: Location },
}

impl ErrorView {
    /// The location of the offending token.
    pub open spec fn location(self) -> Location {
        match self {
            ErrorView::MalformedTemplate { location } => location,
            ErrorView::ExpectedVariableAfterTilde { location, .. } => location,
            ErrorView::ExpectedIdentifierAfterTilde { location } => location,
            ErrorView::UnsupportedConstruct { location } => location,
        }
    }

    /// The text that describes the error to a reader.
    pub open spec fn message(self) -> Seq<char> {
        match self {
            ErrorView::MalformedTemplate { .. } => "expected `variable in start..end { body }`"@,
            ErrorView::ExpectedVariableAfterTilde { variable, .. } => "`~` must be followed by "@
                + variable,
            ErrorView::ExpectedIdentifierAfterTilde { .. } => "`~` must be followed by an identifier"@,
            ErrorView::UnsupportedConstruct { .. } => "a repeated region inside a repeated region is not supported"@,
        }
    }
}

impl View for ExpandError {
    type V = ErrorView;

    open spec fn view(&self) -> ErrorView {
        match self {
            ExpandError::MalformedTemplate { location } => ErrorView::MalformedTemplate {
                location: *location,
            },
            ExpandError::ExpectedVariableAfterTilde {
                variable,
                location,
            } => ErrorView::ExpectedVariableAfterTilde { variable: variable@, location: *location },
            ExpandError::ExpectedIdentifierAfterTilde {
                location,
            } => ErrorView::ExpectedIdentifierAfterTilde { location: *location },
            ExpandError::UnsupportedConstruct { location } => ErrorView::UnsupportedConstruct {
                location: *location,
            },
        }
    }
}

impl Clone for ExpandError {
    /// A copy: the same error.
    fn clone(&self) -> (copy: ExpandError)
        ensures
            copy@ == self@,
    {
        match self {
            ExpandError::MalformedTemplate { location } => ExpandError::MalformedTemplate {
                location: *location,
            },
            ExpandError::ExpectedVariableAfterTilde {
                variable,
                location,
            } => ExpandError::ExpectedVariableAfterTilde {
                variable: variable.clone(),
                location: *location,
            },
            ExpandError::ExpectedIdentifierAfterTilde {
                location,
            } => ExpandError::ExpectedIdentifierAfterTilde { location: *location },
            ExpandError::UnsupportedConstruct { location } => ExpandError::UnsupportedConstruct {
                location: *location,
            },
        }
    }
}

impl ExpandError {
    /// The location of the offending token.
    pub fn location(&self) -> (location: Location)
        ensures
            location == self@.location(),
    {
        match self {
            ExpandError::MalformedTemplate { location } => *location,
            ExpandError::ExpectedVariableAfterTilde { location, .. } => *location,
            ExpandError::ExpectedIdentifierAfterTilde { location } => *location,
            ExpandError::UnsupportedConstruct { location } => *location,
        }
    }

    /// The text that describes the error to a reader.
    pub fn message(&self) -> (text: String)
        ensures
            text@ == self@.message(),
    {
        match self {
            ExpandError::MalformedTemplate { .. } => String::from_str(
                "expected `variable in start..end { body }`",
            ),
            ExpandError::ExpectedVariableAfterTilde { variable, .. } => {
                let mut text = String::from_str("`~` must be followed by ");
                text.append(variable.as_str());
                text
            },
            ExpandError::ExpectedIdentifierAfterTilde { .. } => String::from_str(
                "`~` must be followed by an identifier",
            ),
            ExpandError::UnsupportedConstruct { .. } => String::from_str(
                "a repeated region inside a repeated region is not supported",
            ),
        }
    }
}

} // verus!
