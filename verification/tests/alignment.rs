use kernel_mm::memory::addr::Addr;
use kernel_mm::memory::frame::Frame;
use kernel_mm::memory::phys::AllocatedFrame;
use kernel_mm::memory::{Size2M, Size4K, FRAME_SIZE};

#[test]
fn align_up_rounds_to_next_boundary() {
    assert_eq!(Addr(0x1001).align_up(0x1000).0, 0x2000);
}

#[test]
fn align_down_rounds_to_previous_boundary() {
    assert_eq!(Addr(0x1001).align_down(0x1000).0, 0x1000);
}

#[test]
fn align_brackets_address() {
    for a in [0usize, 1, 0xfff, 0x1000, 0x1001, 0x7fff_f123, 0xdead_beef] {
        for n in [1usize, 2, 16, 0x1000, 0x20_0000] {
            let down = Addr(a).align_down(n).0;
            let up = Addr(a).align_up(n).0;
            assert!(down <= a);
            assert!(a <= up);
            assert_eq!(down % n, 0);
            assert_eq!(up % n, 0);
            assert_eq!(Addr(down).align_down(n).0, down);
        }
    }
}

#[test]
fn null_address() {
    assert!(Addr(0).is_null());
    assert!(Addr::null().is_null());
    assert!(!Addr(1).is_null());
}

#[test]
fn addr_offset_moves_forward() {
    assert_eq!(Addr(0x1000).offset(0x234).0, 0x1234);
}

#[test]
fn addr_from_integers() {
    assert_eq!(Addr::from(0x42usize), Addr(0x42));
    assert_eq!(Addr::from(0x1_0000_0000u64), Addr(0x1_0000_0000));
}

#[test]
fn frame_containing_address() {
    assert_eq!(Frame::containing_address(0), Frame(0));
    assert_eq!(Frame::containing_address(FRAME_SIZE - 1), Frame(0));
    assert_eq!(Frame::containing_address(FRAME_SIZE), Frame(1));
    assert_eq!(Frame::containing_address(0x12345), Frame(0x12));
}

#[test]
fn frame_addresses_and_range() {
    let f = Frame::containing_address(0x12345);
    assert_eq!(f.start_address(), 0x12000);
    assert_eq!(f.end_address(), 0x13000);
    let r = f.range();
    assert_eq!(r.start, 0x12000);
    assert_eq!(r.end, 0x13000);
    assert!(r.contains(&0x12345));
    assert!(!r.contains(&0x13000));
}

#[test]
fn allocated_frame_starts_at_its_block() {
    // any address in [k * S, (k + 1) * S) yields the frame starting at k * S
    for a in [0x12000usize, 0x12001, 0x12fff] {
        let f = AllocatedFrame::<Size4K>::containing_addr(Addr(a));
        assert_eq!(f.start_address().0, 0x12000);
    }
    let f = AllocatedFrame::<Size2M>::containing_addr(Addr(0x3f_ffff));
    assert_eq!(f.start_address().0, 0x20_0000);
}

#[test]
fn frame_covers_whole_multiple_of_size() {
    // every address in [k * S, (k + 1) * S) lands in the frame starting at k * S
    let k = 7usize;
    for a in [k * FRAME_SIZE, k * FRAME_SIZE + 1, (k + 1) * FRAME_SIZE - 1] {
        let f = Frame::containing_address(a);
        assert_eq!(f.start_address(), k * FRAME_SIZE);
    }
}
