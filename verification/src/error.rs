//! The recoverable failures of matrix arithmetic.

use vstd::prelude::*;
use vstd::string::*;

verus! {

/// Why an arithmetic operation on two matrices was rejected.
#[derive(Clone, Copy, Debug, PartialEq, Eq, Structural)]
pub enum MatrixError {
    /// Addition of two matrices whose row or column counts differ.
    DimensionMismatch,
    /// Multiplication where the left column count is not the right row count.
    IncompatibleShape,
}

impl MatrixError {
    /// The text of the message that describes this error.
    pub open spec fn message_text(self) -> Seq<char> {
        match self {
            MatrixError::DimensionMismatch => "Invalid Addition"@,
            MatrixError::IncompatibleShape => "Invalid multiplication"@,
        }
    }

    /// A short description of the failure.
    pub fn message(&self) -> (text: String)
        ensures
            text@ == self.message_text(),
    {
        match self {
            MatrixError::DimensionMismatch => String::from_str("Invalid Addition"),
            MatrixError::IncompatibleShape => String::from_str("Invalid multiplication"),
        }
    }
}

} // verus!
