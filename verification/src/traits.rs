//! Small traits and a sink that swallows whatever is written to it.

use vstd::prelude::*;

verus! {

/// A writer that accepts and discards everything.
pub struct Sink;

impl Sink {
    /// Accept a whole buffer.
    pub fn write(&mut self, buf: &[u8]) -> (r: Result<usize, ()>)
        ensures
            r == Ok::<usize, ()>(buf@.len() as usize),
    {
        Ok(buf.len())
    }

    /// Nothing is buffered, so flushing always succeeds.
    pub fn flush(&mut self) -> (r: Result<(), ()>)
        ensures
            r == Ok::<(), ()>(()),
    {
        Ok(())
    }
}

/// A clone-like trait whose method returns `Self`: the type of `x.clone()`
/// is the type of `x`.
pub trait Cln: Sized {
    fn clone(&self) -> Self;
}

impl Cln for Sink {
    fn clone(&self) -> Sink {
        Sink
    }
}

/// A multiplication trait generic in its right-hand side, as operator
/// overloading uses it.
pub trait Mult<RHS> {
    /// The resulting type after applying the operator.
    type Output;

    /// Apply the operator.
    fn mul(self, rhs: RHS) -> Self::Output;
}

/// A width in pixels; multiplying by a scale factor gives a width again,
/// computed without overflow in the wider type.
#[derive(Copy, Clone, Debug, PartialEq, Eq, Structural)]
pub struct Width(pub u32);

impl Mult<u32> for Width {
    type Output = u64;

    /// The exact product, in a type wide enough to hold it.
    fn mul(self, rhs: u32) -> (r: u64)
        ensures
            r == self.0 as u64 * rhs as u64,
    {
        proof {
            assert((self.0 as u64) * (rhs as u64) <= u64::MAX) by (nonlinear_arith)
                requires
                    self.0 <= u32::MAX,
                    rhs <= u32::MAX,
            ;
        }
        (self.0 as u64) * (rhs as u64)
    }
}

} // verus!
