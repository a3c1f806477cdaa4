//! The typed hierarchy of hardware paging levels, and virtual pages.
//!
//! For the traversal in [`crate::memory::table`] to be meaningful, one
//! invariant must always be upheld by whoever installs an address space: the
//! entry at index 511 of the active top-level (level 4) table maps back to
//! that table's own physical frame, with present and writable flags.

use vstd::prelude::*;
use core::marker::PhantomData;
use crate::memory::addr::Addr;
use crate::memory::addr::spec_align_down;
use crate::memory::SizedRegion;

verus! {

/// Specifies a page table level.
pub trait PageTableLevel: Copy {

}

/// Specifies a page table level where the next level down is another page
/// table.
pub trait HigherPageTableLevel: PageTableLevel {
    /// Level of the next page table down.
    type NextLevel: PageTableLevel;
}

/// The terminal paging level: its entries map 4 KiB frames directly.
#[derive(Clone, Copy)]
pub struct Level1 {}

/// The paging level above [`Level1`]; its entries map level-1 tables or
/// 2 MiB huge frames.
#[derive(Clone, Copy)]
pub struct Level2 {}

/// The paging level above [`Level2`]; its entries map level-2 tables or
/// 1 GiB huge frames.
#[derive(Clone, Copy)]
pub struct Level3 {}

/// The top paging level; its entries map level-3 tables only.
#[derive(Clone, Copy)]
pub struct Level4 {}

impl PageTableLevel for Level1 {

}

impl PageTableLevel for Level2 {

}

impl PageTableLevel for Level3 {

}

impl PageTableLevel for Level4 {

}

impl HigherPageTableLevel for Level2 {
    type NextLevel = Level1;
}

impl HigherPageTableLevel for Level3 {
    type NextLevel = Level2;
}

impl HigherPageTableLevel for Level4 {
    type NextLevel = Level3;
}

/// A virtual page of memory.
pub struct Page<S: SizedRegion> {
    start: Addr,
    _marker: PhantomData<S>,
}

impl<S: SizedRegion> Page<S> {
    /// The address of the first byte of the page.
    pub closed spec fn spec_start(self) -> Addr {
        self.start
    }

    /// The page of size `S` containing the byte at `addr`.
    pub fn containing_addr(addr: Addr) -> (r: Self)
        ensures
            r.spec_start().0 == spec_align_down(addr.0 as int, S::spec_size() as int),
    {
        proof {
            S::size_properties();
        }
        let size = S::size();
        Page { start: addr.align_down(size), _marker: PhantomData }
    }

    /// The address of the first byte of the page.
    pub fn start_address(&self) -> (r: Addr)
        ensures
            r == self.spec_start(),
    {
        self.start
    }
}

} // verus!
