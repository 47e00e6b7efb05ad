//! Plain structs: a grayscale image and the extrema of a slice.

use vstd::prelude::*;

verus! {

/// A rectangle of pixels, one byte of lightness each, in row-major order.
pub struct GrayscaleMap {
    pub pixels: Vec<u8>,
    size: (usize, usize),
}

impl GrayscaleMap {
    /// The image's width and height.
    pub fn size(&self) -> (s: (usize, usize))
        ensures
            s == self.size_spec(),
    {
        self.size
    }

    /// The image's width and height.
    pub closed spec fn size_spec(&self) -> (usize, usize) {
        self.size
    }

    /// The image's pixels.
    pub closed spec fn pixels_spec(&self) -> Seq<u8> {
        self.pixels@
    }
}

/// Build an image from its dimensions and its pixels, which must agree.
pub fn new_map(size: (usize, usize), pixels: Vec<u8>) -> (map: GrayscaleMap)
    requires
        pixels@.len() == size.0 * size.1,
    ensures
        map.pixels_spec() == pixels@,
        map.size_spec() == size,
{
    GrayscaleMap { pixels, size }
}

/// The largest and smallest members of a slice.
pub struct Extrema<'elt> {
    pub greatest: &'elt i32,
    pub least: &'elt i32,
}

/// Find the extrema of a nonempty slice: both results are members, one at
/// most everything, the other at least everything.
pub fn find_extrema<'s>(slice: &'s [i32]) -> (e: Extrema<'s>)
    requires
        slice@.len() > 0,
    ensures
        slice@.contains(*e.greatest),
        slice@.contains(*e.least),
        forall|i: int| 0 <= i < slice@.len() ==> *e.least <= #[trigger] slice@[i] <= *e.greatest,
{
    let mut greatest_at: usize = 0;
    let mut least_at: usize = 0;
    let mut i: usize = 1;
    let end = slice.len();
    while i < end
        invariant
            end == slice@.len(),
            1 <= i <= end,
            greatest_at < i,
            least_at < i,
            forall|j: int| 0 <= j < i ==> slice@[least_at as int] <= #[trigger] slice@[j],
            forall|j: int| 0 <= j < i ==> #[trigger] slice@[j] <= slice@[greatest_at as int],
        decreases end - i,
    {
        if slice[i] < slice[least_at] {
            least_at = i;
        }
        if slice[i] > slice[greatest_at] {
            greatest_at = i;
        }
        i = i + 1;
    }
    proof {
        assert(slice@[greatest_at as int] == slice@.index(greatest_at as int));
    }
    Extrema { greatest: &slice[greatest_at], least: &slice[least_at] }
}

} // verus!
