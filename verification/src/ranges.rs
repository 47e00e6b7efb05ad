//! Small helpers on integer ranges.

use vstd::prelude::*;

verus! {

/// Return true if two ranges overlap.
///
/// If either range is empty, they don't count as overlapping.
pub fn overlap(r1: core::ops::Range<usize>, r2: core::ops::Range<usize>) -> (b: bool)
    ensures
        b == (r1.start < r1.end && r2.start < r2.end && r1.start < r2.end && r2.start < r1.end),
{
    r1.start < r1.end && r2.start < r2.end && r1.start < r2.end && r2.start < r1.end
}

/// Sum of two lengths, defined only where the sum fits in a `usize`.
pub fn add(left: usize, right: usize) -> (sum: usize)
    requires
        left + right <= usize::MAX,
    ensures
        sum == left + right,
{
    left + right
}

} // verus!
