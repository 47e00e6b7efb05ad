//! Byte strings that are guaranteed to hold only ASCII.

use vstd::prelude::*;

verus! {

/// A byte string checked to hold only well-formed ASCII text: bytes from `0`
/// to `0x7f`.
#[derive(Debug, Eq, PartialEq)]
pub struct Ascii(Vec<u8>);

/// True when every byte is ASCII.
pub open spec fn all_ascii(bytes: Seq<u8>) -> bool {
    forall|i: int| 0 <= i < bytes.len() ==> bytes[i] < 128
}

impl View for Ascii {
    type V = Seq<u8>;

    closed spec fn view(&self) -> Seq<u8> {
        self.0@
    }
}

impl Ascii {
    /// Create an `Ascii` from the ASCII text in `bytes`; hand the bytes back
    /// in a `NotAsciiError` if any of them is not ASCII.
    pub fn from_bytes(bytes: Vec<u8>) -> (r: Result<Ascii, NotAsciiError>)
        ensures
            match r {
                Ok(ascii) => all_ascii(bytes@) && ascii@ == bytes@,
                Err(e) => !all_ascii(bytes@) && e.0@ == bytes@,
            },
    {
        let mut i: usize = 0;
        let end = bytes.len();
        while i < end
            invariant
                end == bytes@.len(),
                i <= end,
                forall|j: int| 0 <= j < i ==> bytes@[j] < 128,
            decreases end - i,
        {
            if bytes[i] >= 128 {
                return Err(NotAsciiError(bytes));
            }
            i = i + 1;
        }
        Ok(Ascii(bytes))
    }

    /// The checked bytes.
    pub fn as_bytes(&self) -> (b: &Vec<u8>)
        ensures
            b@ == self@,
    {
        &self.0
    }
}

/// The failed conversion gives back the vector it could not accept.
#[derive(Debug, Eq, PartialEq)]
pub struct NotAsciiError(pub Vec<u8>);

} // verus!
