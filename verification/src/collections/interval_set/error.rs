//! The two ways an interval operation can fail.

use vstd::prelude::*;

verus! {

/// A structural validity failure, reported to the caller as a value.
#[derive(Debug, Clone, Copy, PartialEq, Eq)]
pub enum IntervalSetError {
    /// The requested pair of endpoints does not bound an interval.
    InvalidInterval,
    /// The two intervals have a gap between them, so no single interval
    /// covers exactly their points.
    MergeSeparatedIntervals,
}

pub type IntervalSetResult<T> = Result<T, IntervalSetError>;

} // verus!
