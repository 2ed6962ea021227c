//! The ways in which a request can fail.

use vstd::prelude::*;

verus! {

/// Why a request was refused or a computation gave no result.
#[derive(Clone, Copy, Debug, PartialEq, Eq, Structural)]
pub enum FsrsError {
    /// The parameter vector has the wrong length or holds a value out of range.
    InvalidParameterVector,
    /// The desired retention is not within `(0, 1]`.
    InvalidRetention,
    /// A replay or an evaluation was asked for on no reviews at all.
    EmptyHistory,
    /// Nothing is left to train on once degenerate items are filtered out.
    NoTrainableData,
    /// A loss, a gradient or a memory state stopped being a finite number.
    NumericalDivergence,
}

impl FsrsError {
    /// The reason in words.
    pub open spec fn reason(self) -> Seq<char> {
        match self {
            FsrsError::InvalidParameterVector => "Invalid parameter vector"@,
            FsrsError::InvalidRetention => "Desired retention must be within (0, 1]"@,
            FsrsError::EmptyHistory => "Review history is empty"@,
            FsrsError::NoTrainableData => "No valid review data provided"@,
            FsrsError::NumericalDivergence => "Computation did not stay finite"@,
        }
    }

    /// A human-readable reason for the failure.
    pub fn message(&self) -> (text: &'static str)
        ensures
            text@ == self.reason(),
    {
        match self {
            FsrsError::InvalidParameterVector => "Invalid parameter vector",
            FsrsError::InvalidRetention => "Desired retention must be within (0, 1]",
            FsrsError::EmptyHistory => "Review history is empty",
            FsrsError::NoTrainableData => "No valid review data provided",
            FsrsError::NumericalDivergence => "Computation did not stay finite",
        }
    }
}

} // verus!
