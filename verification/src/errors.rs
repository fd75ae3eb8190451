//! The per-diff error taxonomy of the normalization engine.

use vstd::prelude::*;

verus! {

/// Why one affected-node diff could not be normalized.  Every kind is
/// per-diff and recoverable: the orchestrator reports it, skips the diff,
/// and goes on with the event's remaining diffs.
#[derive(Debug, Clone, Copy, PartialEq, Eq, Structural)]
pub enum NormError {
    /// A currency-amount representation is structurally invalid: a compound
    /// record without a `value` field, or an unreadable numeric.
    MalformedAmount,
    /// A required field (prior-transaction linkage on non-creation diffs,
    /// either currency leg) is absent from the diff's field block.
    MissingField,
    /// A disclosed owner-funds value is not a valid decimal.
    InvalidAmount,
    /// A quality computation hit a zero denominator.
    InvalidQuality,
}

} // verus!
