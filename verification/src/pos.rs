//! Byte positions.

use vstd::prelude::*;

verus! {

/// A byte offset into the text of all source files laid end to end.
///
/// Two positions can be told apart only where they speak of the same source
/// map.
#[derive(Clone, Copy, Debug, PartialEq, Eq, PartialOrd, Ord, Hash, Structural)]
pub struct BytePos(pub u32);

impl BytePos {
    /// The position at the given offset.
    pub fn from_u32(n: u32) -> (pos: Self)
        ensures
            pos.0 == n,
    {
        BytePos(n)
    }

    /// The position at the given offset, which must fit in 32 bits.
    pub fn from_usize(n: usize) -> (pos: Self)
        requires
            n <= u32::MAX,
        ensures
            pos.0 == n,
    {
        BytePos(n as u32)
    }

    /// The offset as a `u32`.
    pub fn to_u32(self) -> (n: u32)
        ensures
            n == self.0,
    {
        self.0
    }

    /// The offset as a `usize`.
    pub fn to_usize(self) -> (n: usize)
        ensures
            n == self.0,
    {
        self.0 as usize
    }
}

} // verus!
