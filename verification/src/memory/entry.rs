//! Bit-packed 64-bit page-table entries and their flag semantics.

use vstd::prelude::*;
use core::marker::PhantomData;
use crate::memory::addr::Addr;
use crate::memory::addr::spec_align_down;
use crate::memory::Size1G;
use crate::memory::Size2M;
use crate::memory::Size4K;
use crate::memory::SizedRegion;
use crate::memory::paging::Level1;
use crate::memory::paging::Level2;
use crate::memory::paging::Level3;
use crate::memory::paging::PageTableLevel;
use crate::memory::phys::AllocatedFrame;
use crate::memory::phys::SizedAllocatedFrame;

verus! {

/// Bit 0: the entry is present.
pub const PRESENT: u64 = 1u64 << 0;
/// Bit 1: writes through this mapping are allowed.
pub const WRITABLE: u64 = 1u64 << 1;
/// Bit 2: code running in user mode may use this mapping.
pub const USER_ACCESSIBLE: u64 = 1u64 << 2;
/// Bit 3: writes go directly to memory.
pub const WRITE_THROUGH: u64 = 1u64 << 3;
/// Bit 4: no cache is used for this mapping.
pub const NO_CACHE: u64 = 1u64 << 4;
/// Bit 5: the processor set this on access.
pub const ACCESSED: u64 = 1u64 << 5;
/// Bit 6: the processor set this on a write.
pub const DIRTY: u64 = 1u64 << 6;
/// Bit 7: the entry maps a huge frame directly instead of a next-level table.
pub const HUGE: u64 = 1u64 << 7;
/// Bit 8: the mapping survives an address-space switch.
pub const GLOBAL: u64 = 1u64 << 8;
/// Bit 63: no code may be executed through this mapping.
pub const NO_EXEC: u64 = 1u64 << 63;

/// Every bit that carries a flag meaning: bits 0 through 8 and bit 63.
pub const FLAGS_MASK: u64 = PRESENT | WRITABLE | USER_ACCESSIBLE | WRITE_THROUGH | NO_CACHE
    | ACCESSED | DIRTY | HUGE | GLOBAL | NO_EXEC;

/// Bits 12 through 51: the physical address field of an entry.
pub const ADDR_MASK: u64 = 0x000f_ffff_ffff_f000;

/// The hardware flag bits of one page-table entry, with all non-flag bits
/// cleared.
#[derive(Clone, Copy, PartialEq, Eq, Structural, Debug)]
pub struct EntryFlags {
    pub bits: u64,
}

impl EntryFlags {
    /// Holds when every bit set in `mask` is also set in `self`.
    pub open spec fn spec_contains(self, mask: u64) -> bool {
        self.bits & mask == mask
    }

    /// Keeps exactly the bits of `bits` that carry a flag meaning.
    pub fn from_bits_truncate(bits: u64) -> (r: Self)
        ensures
            r.bits == bits & FLAGS_MASK,
    {
        EntryFlags { bits: bits & FLAGS_MASK }
    }

    /// The flag set with exactly the bits of `mask` that carry a flag meaning.
    pub fn of(mask: u64) -> (r: Self)
        ensures
            r.bits == mask & FLAGS_MASK,
    {
        EntryFlags { bits: mask & FLAGS_MASK }
    }

    /// Whether every flag set in `other` is set in `self` too.
    pub fn contains(self, other: EntryFlags) -> (r: bool)
        ensures
            r == self.spec_contains(other.bits),
    {
        self.bits & other.bits == other.bits
    }

    /// A mapping can be read through exactly when it is present.
    pub fn readable(self) -> (r: bool)
        ensures
            r == self.spec_contains(PRESENT),
    {
        self.bits & PRESENT == PRESENT
    }

    /// A mapping can be written through exactly when it is present and
    /// writable.
    pub fn writable(self) -> (r: bool)
        ensures
            r == self.spec_contains(PRESENT | WRITABLE),
    {
        self.bits & (PRESENT | WRITABLE) == (PRESENT | WRITABLE)
    }

    /// Code can run through a mapping exactly when it is present and the
    /// no-execute bit is clear.
    pub fn executable(self) -> (r: bool)
        ensures
            r == (self.spec_contains(PRESENT) && !self.spec_contains(NO_EXEC)),
    {
        self.bits & PRESENT == PRESENT && self.bits & NO_EXEC != NO_EXEC
    }
}

/// An entry in a page table of level `L`.
#[derive(Copy)]
pub struct Entry<L: PageTableLevel> {
    inner: u64,
    _marker: PhantomData<L>,
}

impl<L: PageTableLevel> Clone for Entry<L> {
    fn clone(&self) -> (r: Self)
        ensures
            r == *self,
    {
        Entry { inner: self.inner, _marker: PhantomData }
    }
}

impl<L: PageTableLevel> Entry<L> {
    /// The raw 64-bit value of the entry.
    pub closed spec fn raw(self) -> u64 {
        self.inner
    }

    /// An entry holding the raw 64-bit value `bits`, as read from a hardware
    /// table.
    pub fn from_raw(bits: u64) -> (r: Self)
        ensures
            r.raw() == bits,
    {
        Entry { inner: bits, _marker: PhantomData }
    }

    /// An entry is unused exactly when all of its 64 bits are zero.
    pub fn is_unused(&self) -> (r: bool)
        ensures
            r == (self.raw() == 0),
    {
        self.inner == 0
    }

    /// Clears the entry to all-zero, the unused value.
    pub fn set_unused(&mut self)
        ensures
            final(self).raw() == 0,
    {
        self.inner = 0;
    }

    /// The flag bits of the entry: exactly bits 0 through 8 and bit 63 of the
    /// raw value, everything else cleared.
    pub fn flags(&self) -> (r: EntryFlags)
        ensures
            r.bits == self.raw() & FLAGS_MASK,
    {
        EntryFlags::from_bits_truncate(self.inner)
    }

    /// The physical address field of the entry: exactly bits 12 through 51 of
    /// the raw value.
    pub fn addr(&self) -> (r: Addr)
        ensures
            r.0 == (self.raw() & ADDR_MASK) as usize,
    {
        Addr((self.inner & ADDR_MASK) as usize)
    }
}

impl<L: PageTableLevel> Default for Entry<L> {
    /// The unused, all-zero entry.
    fn default() -> (r: Self)
        ensures
            r.raw() == 0,
    {
        Entry { inner: 0, _marker: PhantomData }
    }
}

/// Containment of a single flag in the truncated flag field is the same as
/// containment in the raw value.
pub(crate) proof fn lemma_flag_in_truncated(x: u64)
    by (bit_vector)
    ensures
        PRESENT & FLAGS_MASK == PRESENT,
        HUGE & FLAGS_MASK == HUGE,
        ((x & FLAGS_MASK) & PRESENT == PRESENT) == (x & PRESENT == PRESENT),
        ((x & FLAGS_MASK) & HUGE == HUGE) == (x & HUGE == HUGE),
{
}

impl Entry<Level1> {
    /// Decodes the 4 KiB frame a present level-1 entry maps.
    pub fn frame(&self) -> (r: Option<AllocatedFrame<Size4K>>)
        ensures
            (r is Some) == (self.raw() & PRESENT == PRESENT),
            r matches Some(f) ==> f.spec_start().0 == spec_align_down(
                (self.raw() & ADDR_MASK) as usize as int,
                Size4K::spec_size() as int,
            ),
    {
        proof {
            lemma_flag_in_truncated(self.raw());
        }
        if self.flags().contains(EntryFlags::of(PRESENT)) {
            Some(AllocatedFrame::containing_addr(self.addr()))
        } else {
            None
        }
    }
}

impl Entry<Level2> {
    /// Decodes what a present level-2 entry maps: a 2 MiB huge frame when the
    /// huge flag is set, otherwise the 4 KiB frame holding a level-1 table.
    pub fn frame(&self) -> (r: Option<SizedAllocatedFrame<Size2M>>)
        ensures
            (r is Some) == (self.raw() & PRESENT == PRESENT),
            r matches Some(SizedAllocatedFrame::Huge(f)) ==> self.raw() & HUGE == HUGE
                && f.spec_start().0 == spec_align_down(
                (self.raw() & ADDR_MASK) as usize as int,
                Size2M::spec_size() as int,
            ),
            r matches Some(SizedAllocatedFrame::Normal(f)) ==> self.raw() & HUGE != HUGE
                && f.spec_start().0 == spec_align_down(
                (self.raw() & ADDR_MASK) as usize as int,
                Size4K::spec_size() as int,
            ),
    {
        proof {
            lemma_flag_in_truncated(self.raw());
        }
        if self.flags().contains(EntryFlags::of(PRESENT)) {
            Some(SizedAllocatedFrame::new(self.addr(), self.flags().contains(EntryFlags::of(HUGE))))
        } else {
            None
        }
    }
}

impl Entry<Level3> {
    /// Decodes what a present level-3 entry maps: a 1 GiB huge frame when the
    /// huge flag is set, otherwise the 4 KiB frame holding a level-2 table.
    pub fn frame(&self) -> (r: Option<SizedAllocatedFrame<Size1G>>)
        ensures
            (r is Some) == (self.raw() & PRESENT == PRESENT),
            r matches Some(SizedAllocatedFrame::Huge(f)) ==> self.raw() & HUGE == HUGE
                && f.spec_start().0 == spec_align_down(
                (self.raw() & ADDR_MASK) as usize as int,
                Size1G::spec_size() as int,
            ),
            r matches Some(SizedAllocatedFrame::Normal(f)) ==> self.raw() & HUGE != HUGE
                && f.spec_start().0 == spec_align_down(
                (self.raw() & ADDR_MASK) as usize as int,
                Size4K::spec_size() as int,
            ),
    {
        proof {
            lemma_flag_in_truncated(self.raw());
        }
        if self.flags().contains(EntryFlags::of(PRESENT)) {
            Some(SizedAllocatedFrame::new(self.addr(), self.flags().contains(EntryFlags::of(HUGE))))
        } else {
            None
        }
    }
}

} // verus!
