use kernel_mm::memory::phys::{DeallocateError, FrameAllocator};
use kernel_mm::memory::simple_allocator::{
    BootDataError, MemoryAreaKind, RawElfSection, RawMemoryArea, SimpleFrameAllocator,
};
use kernel_mm::memory::FRAME_SIZE;

fn area(start: u64, size: u64, kind: MemoryAreaKind) -> RawMemoryArea {
    RawMemoryArea { start, size, kind }
}

fn section(start: u64, size: u64) -> RawElfSection {
    RawElfSection { start, size }
}

/// An allocator over `areas` with the kernel image and blob extents given as
/// `(start, size)` pairs; an empty pair excludes nothing.
fn allocator(
    areas: Vec<RawMemoryArea>,
    kernel: (u64, u64),
    blob: (u64, u64),
) -> SimpleFrameAllocator {
    let sections = vec![section(kernel.0, kernel.1)];
    SimpleFrameAllocator::new(areas, &sections, blob.0, blob.1).unwrap()
}

#[test]
fn first_frame_skips_kernel_image() {
    // one available area, the kernel image at its start, the blob below it
    let mut a = allocator(
        vec![area(0x100000, 0xff00000, MemoryAreaKind::Available)],
        (0x100000, 0x5000),
        (0x9000, 0x500),
    );
    let f = a.allocate().expect("a frame must be available");
    assert_eq!(f.start_address().0, 0x105000);
}

#[test]
fn no_available_area_means_no_frame() {
    let mut a = allocator(vec![], (0x100000, 0), (0, 0));
    assert!(a.allocate().is_none());
    let mut a = allocator(
        vec![area(0x1000, 0x10000, MemoryAreaKind::Reserved)],
        (0x100000, 0),
        (0, 0),
    );
    assert!(a.allocate().is_none());
}

#[test]
fn exhausted_area_advances_to_the_next() {
    // two available areas with a gap and no exclusions: the first holds one
    // frame, so the second allocation comes from the next area, not nothing
    let mut a = allocator(
        vec![
            area(0x0, 0x1000, MemoryAreaKind::Available),
            area(0x10000, 0x10000, MemoryAreaKind::Available),
        ],
        (0x100000, 0),
        (0, 0),
    );
    let f1 = a.allocate().expect("the first area holds one frame");
    assert_eq!(f1.start_address().0, 0x0);
    let f2 = a.allocate().expect("the second area must take over");
    assert_eq!(f2.start_address().0, 0x10000);
}

#[test]
fn areas_are_selected_by_smallest_start() {
    // areas listed out of order: frames still come lowest-address first
    let mut a = allocator(
        vec![
            area(0x30000, 0x1000, MemoryAreaKind::Available),
            area(0x10000, 0x1000, MemoryAreaKind::Available),
        ],
        (0x100000, 0),
        (0, 0),
    );
    assert_eq!(a.allocate().unwrap().start_address().0, 0x10000);
    assert_eq!(a.allocate().unwrap().start_address().0, 0x30000);
    assert!(a.allocate().is_none());
}

#[test]
fn frames_never_intersect_exclusions() {
    // kernel and blob ranges inside the area, unaligned on purpose
    let kernel = (0x3100u64, 0x2200u64);
    let blob = (0x8080u64, 0x100u64);
    let mut a = allocator(
        vec![area(0x0, 0x10000, MemoryAreaKind::Available)],
        kernel,
        blob,
    );
    let mut starts = Vec::new();
    while let Some(f) = a.allocate() {
        starts.push(f.start_address().0 as u64);
    }
    assert!(!starts.is_empty());
    for &s in &starts {
        let e = s + FRAME_SIZE as u64;
        assert!(e <= kernel.0 || s >= kernel.0 + kernel.1);
        assert!(e <= blob.0 || s >= blob.0 + blob.1);
    }
    // frames at 0x3000 (overlaps kernel start) and 0x5000 (inside) are gone
    assert!(!starts.contains(&0x3000));
    assert!(!starts.contains(&0x5000));
    assert!(starts.contains(&0x2000));
    assert!(starts.contains(&0x6000));
}

#[test]
fn frame_starts_strictly_increase() {
    let mut a = allocator(
        vec![
            area(0x0, 0x3000, MemoryAreaKind::Available),
            area(0x2000, 0x4000, MemoryAreaKind::Available),
            area(0x9000, 0x2000, MemoryAreaKind::Available),
        ],
        (0x100000, 0),
        (0, 0),
    );
    let mut last: Option<usize> = None;
    while let Some(f) = a.allocate() {
        let s = f.start_address().0;
        if let Some(prev) = last {
            assert!(s > prev, "frame starts must strictly increase");
        }
        last = Some(s);
    }
    assert!(last.is_some());
}

#[test]
fn exhaustion_is_permanent() {
    let mut a = allocator(
        vec![area(0x1000, 0x2000, MemoryAreaKind::Available)],
        (0x100000, 0),
        (0, 0),
    );
    assert!(a.allocate().is_some());
    assert!(a.allocate().is_some());
    assert!(a.allocate().is_none());
    assert!(a.allocate().is_none());
}

#[test]
fn deallocate_always_fails_loudly() {
    let mut a = allocator(
        vec![area(0x0, 0x1000, MemoryAreaKind::Available)],
        (0x100000, 0),
        (0, 0),
    );
    let f = a.allocate().unwrap();
    assert_eq!(a.deallocate(f), Err(DeallocateError::Unsupported));
    // the allocator is unchanged: the next call still reports exhaustion
    assert!(a.allocate().is_none());
}

#[test]
fn missing_sections_are_boot_fatal() {
    let r = SimpleFrameAllocator::new(vec![], &vec![], 0, 0);
    assert_eq!(r.unwrap_err(), BootDataError::MissingElfSections);
}

#[test]
fn overflowing_section_is_rejected() {
    let r = SimpleFrameAllocator::new(
        vec![],
        &vec![section(u64::MAX - 0x100, 0x200)],
        0,
        0,
    );
    assert_eq!(r.unwrap_err(), BootDataError::InvalidElfSection);
}

#[test]
fn overflowing_blob_extent_is_rejected() {
    let r = SimpleFrameAllocator::new(
        vec![],
        &vec![section(0x100000, 0x5000)],
        u64::MAX - 0x100,
        0x200,
    );
    assert_eq!(r.unwrap_err(), BootDataError::InvalidBootInfoRange);
}

#[test]
fn overflowing_area_is_rejected() {
    let r = SimpleFrameAllocator::new(
        vec![area(u64::MAX - 0x100, 0x200, MemoryAreaKind::Available)],
        &vec![section(0x100000, 0x5000)],
        0x9000,
        0x500,
    );
    assert_eq!(r.unwrap_err(), BootDataError::InvalidMemoryArea);
}

#[test]
fn kernel_extent_spans_all_sections() {
    // sections out of order: the excluded kernel extent is min start to max end
    let sections = vec![section(0x103000, 0x2000), section(0x100000, 0x1000)];
    let a = SimpleFrameAllocator::new(
        vec![area(0x100000, 0x10000, MemoryAreaKind::Available)],
        &sections,
        0,
        0,
    )
    .unwrap();
    assert_eq!(a.kernel.start.0, 0x100000);
    assert_eq!(a.kernel.end.0, 0x105000);
}

#[test]
fn unaligned_area_start_yields_aligned_frames() {
    let mut a = allocator(
        vec![area(0x800, 0x3000, MemoryAreaKind::Available)],
        (0x100000, 0),
        (0, 0),
    );
    let f = a.allocate().unwrap();
    assert_eq!(f.start_address().0, 0x1000);
    let f = a.allocate().unwrap();
    assert_eq!(f.start_address().0, 0x2000);
    // [0x3000, 0x3800) has no room for a whole frame
    assert!(a.allocate().is_none());
}
