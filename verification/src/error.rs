//! Caller-error taxonomy for the fitting pipeline.

use vstd::prelude::*;

verus! {

/// Explicit failures returned instead of silently producing undefined
/// values: the degenerate constant-input range fails fast, and empty or
/// mismatched inputs are rejected as contract violations.
#[derive(Clone, Copy, Debug, PartialEq, Eq)]
pub enum Error {
    /// A sequence argument was empty.
    EmptyInput,
    /// Paired sequences differ in length.
    LengthMismatch,
    /// Every value of a sequence to be normalized is identical, so the
    /// min-max mapping would divide by zero.
    DegenerateRange,
}

} // verus!
