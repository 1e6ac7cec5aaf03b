use vstd::prelude::*;

verus! {

/// Why a text is not a brace expression.
///
/// Every offset counts bytes of the UTF-8 text from its start.
#[derive(Clone, Debug, PartialEq, Eq)]
pub enum ParseError {
    /// A `{` that is never closed, or a `}` that closes nothing, at `offset`.
    UnbalancedBrace { offset: usize },
    /// A group has the outline of a range, but the token `text`, which starts
    /// at `offset`, is neither an integer nor a letter that fits its place.
    InvalidRangeToken { offset: usize, text: String },
    /// A letter range whose group opens at `offset` runs from one case to the other.
    MixedCaseAlphabeticRange { offset: usize },
}

/// The mathematical content of a [`ParseError`].
pub enum ParseFault {
    UnbalancedBrace { offset: nat },
    InvalidRangeToken { offset: nat, text: Seq<char> },
    MixedCaseAlphabeticRange { offset: nat },
}

impl View for ParseError {
    type V = ParseFault;

    open spec fn view(&self) -> ParseFault {
        match self {
            ParseError::UnbalancedBrace { offset } => ParseFault::UnbalancedBrace {
                offset: *offset as nat,
            },
            ParseError::InvalidRangeToken { offset, text } => ParseFault::InvalidRangeToken {
                offset: *offset as nat,
                text: text@,
            },
            ParseError::MixedCaseAlphabeticRange { offset } => ParseFault::MixedCaseAlphabeticRange {
                offset: *offset as nat,
            },
        }
    }
}

/// Why the expansion of an expression stops before its end.
#[derive(Clone, Copy, Debug, PartialEq, Eq)]
pub enum ExpandError {
    /// A numeric range names a step that does not lead from its start towards its end.
    StepDirectionMismatch,
    /// A numeric range would have to go on with a value that no `i64` holds,
    /// or an expression has more items than can be collected.
    NumericOverflow,
}

} // verus!
