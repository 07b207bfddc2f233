//! The ways an operation of this library can fail.

use vstd::prelude::*;

verus! {

/// Why an operation gave no result.
#[derive(Clone, Copy, Debug, PartialEq, Eq, Structural)]
pub enum Error {
    /// A tuple was used where a point is required, or the other way round, or its tag is
    /// neither that of a point nor that of a vector.
    Type,
    /// A row or column index lies outside the matrix.
    Index,
    /// The inverse of a matrix with determinant zero was asked for.
    SingularMatrix,
    /// A pixel coordinate lies outside the canvas.
    OutOfBounds,
    /// A result is no number: it left the range of the scalars, or it is a quotient by zero, the
    /// root of a negative value, or the direction of a tuple without length.
    Range,
}

} // verus!
