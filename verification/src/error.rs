//! The errors of building a schema.

use vstd::prelude::*;
use vstd::string::StringExecFns;

verus! {

/// Why the text between `Vector<` and `>` is no dimension.
#[derive(Debug, Clone, Copy, PartialEq, Eq, Structural)]
pub enum DimensionFault {
    /// There is nothing between the brackets.
    Empty,
    /// A character is no decimal digit.
    InvalidDigit,
    /// The number does not fit in a `usize`.
    TooLarge,
}

/// What can go wrong when a schema is built from what a database reports.
#[derive(Debug, Clone, PartialEq, Eq)]
pub enum Error {
    /// A `Vector<..>` descriptor whose dimension is no number that can be used.
    InvalidDimension { text: String, fault: DimensionFault },
}

/// What an `Error` stands for.
pub enum ErrorView {
    InvalidDimension { text: Seq<char>, fault: DimensionFault },
}

impl View for Error {
    type V = ErrorView;

    open spec fn view(&self) -> ErrorView {
        match self {
            Error::InvalidDimension { text, fault } => ErrorView::InvalidDimension {
                text: text@,
                fault: *fault,
            },
        }
    }
}

/// The words that tell a reader of the fault.
pub open spec fn fault_text(fault: DimensionFault) -> Seq<char> {
    match fault {
        DimensionFault::Empty => "cannot parse integer from empty string"@,
        DimensionFault::InvalidDigit => "invalid digit found in string"@,
        DimensionFault::TooLarge => "number too large to fit in target type"@,
    }
}

/// The message that tells a reader of the error.
pub open spec fn message_text(e: ErrorView) -> Seq<char> {
    match e {
        ErrorView::InvalidDimension { text, fault } => "Invalid vector dimension '"@ + text
            + "': "@ + fault_text(fault),
    }
}

impl Error {
    /// The message that tells a reader of the error.
    pub fn message(&self) -> (m: String)
        ensures
            m@ == message_text(self@),
    {
        match self {
            Error::InvalidDimension { text, fault } => {
                let mut m = String::from_str("Invalid vector dimension '");
                m.append(text.as_str());
                m.append("': ");
                match fault {
                    DimensionFault::Empty => m.append("cannot parse integer from empty string"),
                    DimensionFault::InvalidDigit => m.append("invalid digit found in string"),
                    DimensionFault::TooLarge => m.append("number too large to fit in target type"),
                }
                m
            },
        }
    }
}

} // verus!
