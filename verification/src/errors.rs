//! The engine's error taxonomy: every failure is a caller error, reported
//! as a typed value rather than a panic.

use vstd::prelude::*;

verus! {

/// Why an engine call was rejected. All variants mark defects in the calling
/// layer (bad span ordering, bad slot index, bad operation token); none is a
/// recoverable runtime condition.
#[derive(Clone, Copy, Debug, PartialEq, Eq, Structural)]
pub enum EngineError {
    /// The end date of a span precedes its start date, or a date lies
    /// outside the supported calendar range.
    InvalidSpan,
    /// A slot index is out of range for the weight set, or an adjustment
    /// token carries no usable (1-based, positive) index.
    InvalidIndex,
    /// An adjustment token does not name one of the two operations.
    UnknownOperation,
}

impl EngineError {
    /// A short human-readable description of the error.
    pub fn describe(&self) -> (r: &'static str)
        ensures
            *self is InvalidSpan ==> r@ == "invalid span"@,
            *self is InvalidIndex ==> r@ == "invalid index"@,
            *self is UnknownOperation ==> r@ == "unknown operation"@,
    {
        match self {
            EngineError::InvalidSpan => "invalid span",
            EngineError::InvalidIndex => "invalid index",
            EngineError::UnknownOperation => "unknown operation",
        }
    }
}

} // verus!
