//! The 512-entry page-table container and its recursive-mapping traversal.

use vstd::prelude::*;
use crate::memory::addr::Addr;
use crate::memory::entry::Entry;
use crate::memory::entry::EntryFlags;
use crate::memory::entry::lemma_flag_in_truncated;
use crate::memory::entry::HUGE;
use crate::memory::entry::PRESENT;
use crate::memory::paging::HigherPageTableLevel;
use crate::memory::paging::PageTableLevel;

verus! {

/// The number of entries in a page table.
pub const ENTRY_COUNT: usize = 512;

/// The index of the top-level entry that maps to the top-level table itself.
pub const RECURSIVE_ENTRY: usize = 511;

/// The virtual address at which the recursively-mapped top-level table is
/// visible.
pub const P4_ADDR: u64 = 0xffff_ffff_ffff_f000;

/// A page-aligned table of 512 entries at level `L`.
pub struct PageTable<L: PageTableLevel> {
    entries: Vec<Entry<L>>,
}

impl<L: PageTableLevel> PageTable<L> {
    /// The entries of the table, in index order.
    pub closed spec fn spec_entries(self) -> Seq<Entry<L>> {
        self.entries@
    }

    /// A table always holds exactly 512 entries.
    pub open spec fn wf(self) -> bool {
        self.spec_entries().len() == ENTRY_COUNT
    }

    /// A table with every entry unused.
    pub fn new() -> (r: Self)
        ensures
            r.wf(),
            forall|i: int| 0 <= i < ENTRY_COUNT ==> r.spec_entries()[i].raw() == 0,
    {
        let mut entries: Vec<Entry<L>> = Vec::new();
        let mut i: usize = 0;
        while i < ENTRY_COUNT
            invariant
                i <= ENTRY_COUNT,
                entries@.len() == i,
                forall|j: int| 0 <= j < i ==> entries@[j].raw() == 0,
            decreases ENTRY_COUNT - i,
        {
            entries.push(Entry::from_raw(0));
            i = i + 1;
        }
        PageTable { entries }
    }

    /// The entry at `index`.
    pub fn entry_at(&self, index: usize) -> (r: Entry<L>)
        requires
            self.wf(),
            index < ENTRY_COUNT,
        ensures
            r == self.spec_entries()[index as int],
    {
        self.entries[index]
    }

    /// Replaces the entry at `index`.
    pub fn set_entry(&mut self, index: usize, entry: Entry<L>)
        requires
            old(self).wf(),
            index < ENTRY_COUNT,
        ensures
            final(self).wf(),
            final(self).spec_entries() == old(self).spec_entries().update(index as int, entry),
    {
        self.entries.set(index, entry);
    }
}

impl<L: PageTableLevel> Default for PageTable<L> {
    /// A table with every entry unused.
    fn default() -> (r: Self)
        ensures
            r.wf(),
            forall|i: int| 0 <= i < ENTRY_COUNT ==> r.spec_entries()[i].raw() == 0,
    {
        PageTable::new()
    }
}

impl<L: HigherPageTableLevel> PageTable<L> {
    /// Given this table's own virtual address `self_addr` — known because it
    /// is either the recursive top-level address [`P4_ADDR`] or was produced
    /// by a previous traversal step — computes the virtual address of the
    /// next-level-down table behind the entry at `index`: the table's address
    /// shifted left by 9 bits, with `index` shifted left by 12 bits merged
    /// in. There is no next-level table when the entry is not present or maps
    /// a huge frame directly; nothing is returned then.
    ///
    /// The result is a valid table address only while the recursive-slot
    /// invariant described in [`crate::memory::paging`] holds for the active
    /// address space; that invariant is established once at address-space
    /// setup, not checked per call.
    pub fn next_table_addr(&self, self_addr: Addr, index: usize) -> (r: Option<Addr>)
        requires
            self.wf(),
            index < ENTRY_COUNT,
        ensures
            ({
                let e = self.spec_entries()[index as int];
                if e.raw() & PRESENT == PRESENT && e.raw() & HUGE != HUGE {
                    r == Some(Addr((self_addr.0 << 9usize) | (index << 12usize)))
                } else {
                    r is None
                }
            }),
    {
        let entry = self.entry_at(index);
        proof {
            lemma_flag_in_truncated(entry.raw());
        }
        let flags = entry.flags();
        if flags.contains(EntryFlags::of(PRESENT)) && !flags.contains(EntryFlags::of(HUGE)) {
            Some(Addr((self_addr.0 << 9usize) | (index << 12usize)))
        } else {
            None
        }
    }
}

} // verus!
