//! Allocated physical frames and the frame-allocator interface.

use vstd::prelude::*;
use core::marker::PhantomData;
use crate::memory::addr::Addr;
use crate::memory::addr::spec_align_down;
use crate::memory::Size4K;
use crate::memory::SizedRegion;

verus! {

/// A physical page frame that is guaranteed to be allocated.
///
/// The only intended ways to obtain one are through a frame allocator, or by
/// decoding a present page-table entry that an allocator previously
/// populated; the latter is a trust boundary of the design, not something
/// this crate can check.
pub struct AllocatedFrame<S: SizedRegion> {
    start: Addr,
    _marker: PhantomData<S>,
}

impl<S: SizedRegion> AllocatedFrame<S> {
    /// The address of the first byte of the frame.
    pub closed spec fn spec_start(self) -> Addr {
        self.start
    }

    /// The frame of size `S` containing the byte at `addr`.
    pub fn containing_addr(addr: Addr) -> (r: Self)
        ensures
            r.spec_start().0 == spec_align_down(addr.0 as int, S::spec_size() as int),
    {
        proof {
            S::size_properties();
        }
        let size = S::size();
        AllocatedFrame { start: addr.align_down(size), _marker: PhantomData }
    }

    /// The address of the first byte of the frame.
    pub fn start_address(&self) -> (r: Addr)
        ensures
            r == self.spec_start(),
    {
        self.start
    }
}

/// An [`AllocatedFrame`] that is either a normal 4 KiB frame, or a "huge"
/// frame of size `S`.
pub enum SizedAllocatedFrame<S: SizedRegion> {
    Normal(AllocatedFrame<Size4K>),
    Huge(AllocatedFrame<S>),
}

impl<S: SizedRegion> SizedAllocatedFrame<S> {
    /// Decodes a frame start address together with the huge-page choice: a
    /// huge frame of size `S` when `huge` is set, a normal 4 KiB frame
    /// otherwise. The start address is aligned down to the frame's own size.
    pub fn new(addr: Addr, huge: bool) -> (r: Self)
        ensures
            huge ==> (r matches SizedAllocatedFrame::Huge(f) && f.spec_start().0
                == spec_align_down(addr.0 as int, S::spec_size() as int)),
            !huge ==> (r matches SizedAllocatedFrame::Normal(f) && f.spec_start().0
                == spec_align_down(addr.0 as int, Size4K::spec_size() as int)),
    {
        if huge {
            SizedAllocatedFrame::Huge(AllocatedFrame::containing_addr(addr))
        } else {
            SizedAllocatedFrame::Normal(AllocatedFrame::containing_addr(addr))
        }
    }
}

/// The failure returned when a frame is handed back to an allocator:
/// deallocation has no defined semantics in this design, so it fails loudly
/// and unconditionally instead of silently appearing to succeed.
#[derive(Clone, Copy, PartialEq, Eq, Structural, Debug)]
pub enum DeallocateError {
    Unsupported,
}

/// A source of allocated physical frames of size `S`.
pub trait FrameAllocator<S: SizedRegion>: Sized {
    /// The allocator's internal invariant.
    spec fn wf(&self) -> bool;

    /// How one call to `allocate` relates the allocator's prior state, its
    /// new state, and the returned frame.
    spec fn allocate_post(pre: Self, post: Self, r: Option<AllocatedFrame<S>>) -> bool;

    /// Returns the next free frame, or nothing when no frame remains.
    fn allocate(&mut self) -> (r: Option<AllocatedFrame<S>>)
        requires
            old(self).wf(),
        ensures
            final(self).wf(),
            Self::allocate_post(*old(self), *final(self), r),
    ;

    /// Returns a frame to the allocator. Unsupported in this design: it
    /// always fails and leaves the allocator unchanged.
    fn deallocate(&mut self, frame: AllocatedFrame<S>) -> (r: Result<(), DeallocateError>)
        requires
            old(self).wf(),
        ensures
            *final(self) == *old(self),
            r is Err,
    ;
}

} // verus!
