//! The one failure that the library reports.

use vstd::prelude::*;

verus! {

/// Why a matrix operation did not produce a value.
#[derive(Debug, Clone, Copy, PartialEq, Eq, Structural)]
pub enum MatrixError {
    /// The matrix has determinant 0 and so has no inverse.
    SingularMatrix,
}

impl MatrixError {
    /// The message that describes the error.
    pub fn message(&self) -> (s: &'static str)
        ensures
            s@ == "matrix is uninversible. det == 0"@,
    {
        "matrix is uninversible. det == 0"
    }
}

} // verus!
