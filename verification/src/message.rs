use vstd::prelude::*;
use vstd::string::StringExecFns;
use crate::error::{ExpandError, ParseError, ParseFault};
use crate::outcome::decimal;
use crate::render::{push_chars, push_decimal};

verus! {

/// The sentence that tells a parse fault.
pub open spec fn parse_message(fault: ParseFault) -> Seq<char> {
    match fault {
        ParseFault::UnbalancedBrace { offset } => "unbalanced brace at byte "@ + decimal(offset),
        ParseFault::InvalidRangeToken { offset, text } => "invalid range token `"@ + text
            + "` at byte "@ + decimal(offset),
        ParseFault::MixedCaseAlphabeticRange { offset } =>
            "letter range from one case to the other at byte "@ + decimal(offset),
    }
}

/// The sentence that tells why an expansion stopped.
pub open spec fn expand_message(error: ExpandError) -> Seq<char> {
    match error {
        ExpandError::StepDirectionMismatch => "range step does not lead from start towards end"@,
        ExpandError::NumericOverflow => "numeric overflow in expansion"@,
    }
}

/// Appends `offset` in decimal.
fn push_offset(offset: usize, out: &mut String)
    ensures
        final(out)@ == old(out)@ + decimal(offset as nat),
{
    let mut digits: Vec<char> = Vec::new();
    push_decimal(offset as u64, &mut digits);
    assert(digits@ =~= decimal(offset as nat));
    push_chars(&digits, out);
}

impl ParseError {
    /// The error as a sentence.
    pub fn message(&self) -> (text: String)
        ensures
            text@ == parse_message(self@),
    {
        match self {
            ParseError::UnbalancedBrace { offset } => {
                let mut text = String::from_str("unbalanced brace at byte ");
                push_offset(*offset, &mut text);
                text
            },
            ParseError::InvalidRangeToken { offset, text: token } => {
                let mut text = String::from_str("invalid range token `");
                text.append(token.as_str());
                text.append("` at byte ");
                push_offset(*offset, &mut text);
                text
            },
            ParseError::MixedCaseAlphabeticRange { offset } => {
                let mut text = String::from_str("letter range from one case to the other at byte ");
                push_offset(*offset, &mut text);
                text
            },
        }
    }
}

impl ExpandError {
    /// The error as a sentence.
    pub fn message(&self) -> (text: String)
        ensures
            text@ == expand_message(*self),
    {
        match self {
            ExpandError::StepDirectionMismatch => String::from_str(
                "range step does not lead from start towards end",
            ),
            ExpandError::NumericOverflow => String::from_str("numeric overflow in expansion"),
        }
    }
}

} // verus!
