//! The failures of a triangulation run.

use vstd::prelude::*;
use vstd::string::StringExecFns;

verus! {

/// Why a run was abandoned. A run either delivers a whole mesh or one of these.
#[derive(Clone, Copy, Debug, PartialEq, Eq, Structural)]
pub enum GeometryError {
    /// A ring has fewer than three points.
    InvalidInput,
    /// The triangulation rejected a coordinate, such as one that is not finite.
    InsertionFailure,
}

impl GeometryError {
    /// The text of each failure.
    pub open spec fn spec_message(self) -> Seq<char> {
        match self {
            GeometryError::InvalidInput => "a ring needs at least three points"@,
            GeometryError::InsertionFailure => "the triangulation rejected a coordinate"@,
        }
    }

    /// A sentence for the caller.
    pub fn message(&self) -> (text: String)
        ensures
            text@ == self.spec_message(),
    {
        match self {
            GeometryError::InvalidInput => String::from_str("a ring needs at least three points"),
            GeometryError::InsertionFailure => String::from_str(
                "the triangulation rejected a coordinate",
            ),
        }
    }
}

/// The handle of an inserted point, or the failure of the run when the
/// triangulation refused the point.
pub fn accept_insertion(outcome: Option<usize>) -> (r: Result<usize, GeometryError>)
    ensures
        r == match outcome {
            Some(handle) => Ok::<usize, GeometryError>(handle),
            None => Err::<usize, GeometryError>(GeometryError::InsertionFailure),
        },
{
    match outcome {
        Some(handle) => Ok(handle),
        None => Err(GeometryError::InsertionFailure),
    }
}

} // verus!
