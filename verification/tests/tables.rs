use kernel_mm::memory::addr::Addr;
use kernel_mm::memory::entry::{Entry, HUGE, PRESENT};
use kernel_mm::memory::paging::{Level2, Level4, Page};
use kernel_mm::memory::table::{PageTable, ENTRY_COUNT, P4_ADDR, RECURSIVE_ENTRY};
use kernel_mm::memory::Size2M;

#[test]
fn fresh_table_is_all_unused() {
    let t: PageTable<Level4> = PageTable::new();
    for i in 0..ENTRY_COUNT {
        assert!(t.entry_at(i).is_unused());
    }
}

#[test]
fn set_entry_replaces_one_slot() {
    let mut t: PageTable<Level4> = PageTable::new();
    t.set_entry(3, Entry::from_raw(PRESENT | 0x1000));
    assert!(!t.entry_at(3).is_unused());
    assert!(t.entry_at(2).is_unused());
    assert!(t.entry_at(4).is_unused());
}

#[test]
fn traversal_matches_recursive_formula() {
    let mut t: PageTable<Level4> = PageTable::new();
    t.set_entry(0, Entry::from_raw(PRESENT));
    t.set_entry(5, Entry::from_raw(PRESENT));
    t.set_entry(RECURSIVE_ENTRY, Entry::from_raw(PRESENT));
    let base = P4_ADDR as usize;
    for i in [0usize, 5, RECURSIVE_ENTRY] {
        let next = t.next_table_addr(Addr(base), i).unwrap();
        assert_eq!(next.0, (base << 9) | (i << 12));
    }
    // following the recursive slot leads back to the table itself
    let back = t.next_table_addr(Addr(base), RECURSIVE_ENTRY).unwrap();
    assert_eq!(back.0, base);
}

#[test]
fn traversal_rejects_absent_and_huge_entries() {
    let mut t: PageTable<Level2> = PageTable::new();
    t.set_entry(1, Entry::from_raw(PRESENT | HUGE));
    assert!(t.next_table_addr(Addr(0x1000), 0).is_none());
    assert!(t.next_table_addr(Addr(0x1000), 1).is_none());
}

#[test]
fn page_containing_addr_aligns_down() {
    let p: Page<Size2M> = Page::containing_addr(Addr(0x20_1234));
    assert_eq!(p.start_address().0, 0x20_0000);
}
