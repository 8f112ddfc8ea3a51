use vstd::prelude::*;

verus! {

/// Failures that the curve binding and the signature scheme report.
#[derive(Debug, Clone, Copy, PartialEq, Eq, Structural)]
pub enum CurveError377 {
    /// Aggregation or verification was given no signatures or keys.
    EmptyInputError,
    /// A byte string did not have the fixed width of the element decoded.
    MalformedEncodingError,
    /// A byte string of the right width does not encode a point of the
    /// prime-order subgroup (or a field element below the modulus).
    InvalidPointError,
    /// Hash-to-group ran out of attempts.
    HashToCurveError,
}

/// The error of the BLS12-381 binding: the same failures.
pub type ZexeError = CurveError377;

} // verus!
