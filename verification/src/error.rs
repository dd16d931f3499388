//! The failures an estimate can end in.

use vstd::prelude::*;

verus! {

/// Why an estimate could not be produced.
#[derive(Clone, Copy, Debug, PartialEq, Eq, Structural)]
pub enum EstimateError {
    /// The transfer rate was zero or negative.
    InvalidInput,
    /// The result lies beyond what the time arithmetic can represent.
    Overflow,
    /// The throughput measurement could not be completed.
    ProbeFailed,
}

/// The text shown to the user for each failure.
pub open spec fn message_text(e: EstimateError) -> Seq<char> {
    match e {
        EstimateError::InvalidInput => "Download speed must be greater than zero."@,
        EstimateError::Overflow => "Download time exceeds the bounds of what can be calculated."@,
        EstimateError::ProbeFailed => "Failed to run speed test"@,
    }
}

impl EstimateError {
    /// Returns the user-facing description of this failure.
    pub fn message(&self) -> (text: String)
        ensures
            text@ == message_text(*self),
    {
        match self {
            EstimateError::InvalidInput => String::from_str(
                "Download speed must be greater than zero.",
            ),
            EstimateError::Overflow => String::from_str(
                "Download time exceeds the bounds of what can be calculated.",
            ),
            EstimateError::ProbeFailed => String::from_str("Failed to run speed test"),
        }
    }
}

} // verus!
