//! What an optimisation run reports back: a usable parameter vector on
//! success, an error and no vector on failure.

use vstd::prelude::*;
use crate::error::FsrsError;
use crate::params::{check_parameter_count, valid_parameter_count};

verus! {

/// The outcome of an optimisation run, generic in the parameters' number type.
#[derive(Debug)]
pub struct OptimizeReport<P> {
    pub parameters: Vec<P>,
    pub success: bool,
    pub error: Option<FsrsError>,
}

impl<P> OptimizeReport<P> {
    /// Whether the report is that of `fit`: the fitted vector and no error,
    /// or the error and an empty vector.
    pub open spec fn reports(self, fit: Result<Vec<P>, FsrsError>) -> bool {
        match fit {
            Ok(parameters) => self.success && self.parameters == parameters
                && self.error is None,
            Err(e) => !self.success && self.parameters@.len() == 0 && self.error == Some(e),
        }
    }

    /// What a run that ended in `fit` comes to. A fitted vector is usable
    /// where its length is that of a parameter vector; one of another
    /// length, an empty one too, counts as `InvalidParameterVector`.
    pub open spec fn settled(fit: Result<Vec<P>, FsrsError>) -> Result<Vec<P>, FsrsError> {
        match fit {
            Ok(parameters) => if valid_parameter_count(parameters@.len() as int) {
                Ok(parameters)
            } else {
                Err(FsrsError::InvalidParameterVector)
            },
            Err(e) => Err(e),
        }
    }

    /// The report of a run that ended in `fit`: success with the fitted
    /// vector where that is usable, else failure with the error and an empty
    /// vector.
    pub fn from_result(fit: Result<Vec<P>, FsrsError>) -> (report: Self)
        ensures
            report.reports(Self::settled(fit)),
            report.success == (Self::settled(fit) is Ok),
            report.success ==> valid_parameter_count(report.parameters@.len() as int),
    {
        match fit {
            Ok(parameters) => match check_parameter_count(parameters.len()) {
                Ok(_) => OptimizeReport { parameters, success: true, error: None },
                Err(e) => OptimizeReport { parameters: Vec::new(), success: false, error: Some(e) },
            },
            Err(e) => OptimizeReport { parameters: Vec::new(), success: false, error: Some(e) },
        }
    }

    /// The reason of a failed run in words, nothing for a run that succeeded.
    pub fn error_message(&self) -> (text: Option<&'static str>)
        ensures
            match self.error {
                Some(e) => text is Some && text->Some_0@ == e.reason(),
                None => text is None,
            },
    {
        match &self.error {
            Some(e) => Some(e.message()),
            None => None,
        }
    }
}

} // verus!
