//! Memory primitives: region-size markers and the base frame size.

pub mod addr;
pub use addr::Addr;
pub mod entry;
pub mod frame;
pub mod paging;
pub mod phys;
pub mod simple_allocator;
pub mod table;

use vstd::prelude::*;
use crate::memory::addr::is_power_of_two;
use vstd::arithmetic::power2::pow2;
use vstd::arithmetic::power2::lemma2_to64;

verus! {

/// The size (in bytes) of a base page frame.
pub const FRAME_SIZE: usize = 4096;

/// Specifies the size of a region (page or frame) of memory.
/// Implemented by [`Size4K`], [`Size2M`], and [`Size1G`].
pub trait SizedRegion {
    /// The size (in bytes) of the memory region.
    spec fn spec_size() -> usize;

    /// Every region size is a power of two, at least one base frame large,
    /// and small enough that aligning any address up to it cannot leave the
    /// machine word.
    proof fn size_properties()
        ensures
            is_power_of_two(Self::spec_size()),
            FRAME_SIZE <= Self::spec_size() <= 0x4000_0000,
    ;

    /// The size (in bytes) of the memory region.
    fn size() -> (s: usize)
        ensures
            s == Self::spec_size(),
    ;
}

/// A 4 kibibyte memory size (page or frame).
pub struct Size4K {}
/// A 2 mebibyte memory size (page or frame).
pub struct Size2M {}
/// A 1 gibibyte memory size (page or frame).
pub struct Size1G {}

impl SizedRegion for Size4K {
    open spec fn spec_size() -> usize {
        4096
    }

    proof fn size_properties() {
        lemma2_to64();
        assert(12nat < usize::BITS as nat && 4096usize == pow2(12));
    }

    fn size() -> usize {
        4096
    }
}

impl SizedRegion for Size2M {
    open spec fn spec_size() -> usize {
        0x20_0000
    }

    proof fn size_properties() {
        lemma2_to64();
        assert(21nat < usize::BITS as nat && 0x20_0000usize == pow2(21));
    }

    fn size() -> usize {
        0x20_0000
    }
}

impl SizedRegion for Size1G {
    open spec fn spec_size() -> usize {
        0x4000_0000
    }

    proof fn size_properties() {
        lemma2_to64();
        assert(30nat < usize::BITS as nat && 0x4000_0000usize == pow2(30));
    }

    fn size() -> usize {
        0x4000_0000
    }
}

} // verus!
