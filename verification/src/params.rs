//! The length of a parameter vector.

use vstd::prelude::*;
use crate::error::FsrsError;

verus! {

/// The number of entries of a parameter vector of the latest model revision,
/// and of the default vector.
pub const PARAMETER_COUNT: usize = 21;

/// The number of entries of the shortest parameter vector that is accepted.
pub const MIN_PARAMETER_COUNT: usize = 19;

/// Whether a parameter vector may have `count` entries.
pub open spec fn valid_parameter_count(count: int) -> bool {
    19 <= count <= 21
}

/// Accepts a parameter vector's length, or refuses it as
/// `InvalidParameterVector`. An accepted length is no promise that the
/// engine takes the vector: it checks the values too, and of the lengths
/// accepted here it takes 19 and 21.
pub fn check_parameter_count(count: usize) -> (checked: Result<(), FsrsError>)
    ensures
        checked is Ok <==> valid_parameter_count(count as int),
        checked is Err ==> checked == Err::<(), FsrsError>(FsrsError::InvalidParameterVector),
{
    if MIN_PARAMETER_COUNT <= count && count <= PARAMETER_COUNT {
        Ok(())
    } else {
        Err(FsrsError::InvalidParameterVector)
    }
}

} // verus!
