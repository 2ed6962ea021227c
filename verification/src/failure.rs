//! Failures of the model's engine, the `fsrs` crate, told in the library's
//! own error kinds.

use vstd::prelude::*;
use crate::error::FsrsError;

verus! {

/// The engine's error type, `fsrs::FSRSError`. Its values are carried
/// through; the verifier sees nothing inside them.
#[verifier::external_type_specification]
#[verifier::external_body]
pub struct ExEngineError(fsrs::FSRSError);

/// What the engine can report, variant for variant.
#[derive(Clone, Copy, Debug, PartialEq, Eq, Structural)]
pub enum EngineFailure {
    NotEnoughData,
    Interrupted,
    InvalidParameters,
    OptimalNotFound,
    InvalidInput,
    InvalidDeckSize,
}

/// The variant that an error of the engine is, as `engine_failure` reads it.
pub uninterp spec fn failure_of(error: fsrs::FSRSError) -> EngineFailure;

/// Tells the variants of `fsrs::FSRSError` apart. Trusted: the engine's
/// error is opaque to the verifier, so the contract only names the result,
/// which depends on the error alone; the body matches each of the enum's
/// six variants to the variant of the same name.
#[verifier::external_body]
fn engine_failure(error: &fsrs::FSRSError) -> (failure: EngineFailure)
    ensures
        failure == failure_of(*error),
{
    match error {
        fsrs::FSRSError::NotEnoughData => EngineFailure::NotEnoughData,
        fsrs::FSRSError::Interrupted => EngineFailure::Interrupted,
        fsrs::FSRSError::InvalidParameters => EngineFailure::InvalidParameters,
        fsrs::FSRSError::OptimalNotFound => EngineFailure::OptimalNotFound,
        fsrs::FSRSError::InvalidInput => EngineFailure::InvalidInput,
        fsrs::FSRSError::InvalidDeckSize => EngineFailure::InvalidDeckSize,
    }
}

impl FsrsError {
    /// The error kind under which an engine failure is reported: too little
    /// data as `NoTrainableData`, a refused parameter vector as
    /// `InvalidParameterVector`, and each of the other four as
    /// `NumericalDivergence`. The engine gives `InvalidInput` for a value
    /// that stopped being finite and for malformed input alike,
    /// `Interrupted` when a caller's progress callback stops a run, and
    /// `OptimalNotFound` and `InvalidDeckSize` from its simulator; to tell
    /// all four as `NumericalDivergence` is this library's choice, the one
    /// kind it has for a computation that gave no result.
    pub open spec fn of_failure(failure: EngineFailure) -> FsrsError {
        match failure {
            EngineFailure::NotEnoughData => FsrsError::NoTrainableData,
            EngineFailure::InvalidParameters => FsrsError::InvalidParameterVector,
            EngineFailure::Interrupted => FsrsError::NumericalDivergence,
            EngineFailure::OptimalNotFound => FsrsError::NumericalDivergence,
            EngineFailure::InvalidInput => FsrsError::NumericalDivergence,
            EngineFailure::InvalidDeckSize => FsrsError::NumericalDivergence,
        }
    }

    /// The error kind under which an engine failure is reported.
    pub fn from_failure(failure: EngineFailure) -> (error: FsrsError)
        ensures
            error == FsrsError::of_failure(failure),
    {
        match failure {
            EngineFailure::NotEnoughData => FsrsError::NoTrainableData,
            EngineFailure::InvalidParameters => FsrsError::InvalidParameterVector,
            _ => FsrsError::NumericalDivergence,
        }
    }

    /// The error kind under which an error of the engine is reported: that
    /// of the variant which the error is.
    pub fn from_engine(error: &fsrs::FSRSError) -> (kind: FsrsError)
        ensures
            kind == FsrsError::of_failure(failure_of(*error)),
    {
        let failure = engine_failure(error);
        FsrsError::from_failure(failure)
    }
}

} // verus!
