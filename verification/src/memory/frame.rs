//! Physical frames identified by their index over the base frame size.

use vstd::prelude::*;
use crate::memory::FRAME_SIZE;

verus! {

/// A physical frame, identified by its index: frame `k` covers the byte
/// addresses `[k * FRAME_SIZE, (k + 1) * FRAME_SIZE)`.
#[derive(Clone, Copy, PartialEq, Eq, Structural, Debug)]
pub struct Frame(pub usize);

impl Frame {
    /// The frame containing the byte at address `addr`.
    pub fn containing_address(addr: usize) -> (r: Frame)
        ensures
            r.0 == addr / FRAME_SIZE,
            r.0 * FRAME_SIZE <= addr < (r.0 + 1) * FRAME_SIZE,
    {
        Frame(addr / FRAME_SIZE)
    }

    /// The address of the first byte of the frame.
    pub fn start_address(&self) -> (r: usize)
        requires
            self.0 * FRAME_SIZE + FRAME_SIZE <= usize::MAX,
        ensures
            r == self.0 * FRAME_SIZE,
    {
        self.0 * FRAME_SIZE
    }

    /// One past the address of the last byte of the frame.
    pub fn end_address(&self) -> (r: usize)
        requires
            self.0 * FRAME_SIZE + FRAME_SIZE <= usize::MAX,
        ensures
            r == self.0 * FRAME_SIZE + FRAME_SIZE,
    {
        self.start_address() + FRAME_SIZE
    }

    /// The half-open range of byte addresses the frame covers.
    pub fn range(&self) -> (r: core::ops::Range<usize>)
        requires
            self.0 * FRAME_SIZE + FRAME_SIZE <= usize::MAX,
        ensures
            r.start == self.0 * FRAME_SIZE,
            r.end == self.0 * FRAME_SIZE + FRAME_SIZE,
    {
        self.start_address()..self.end_address()
    }
}

} // verus!
