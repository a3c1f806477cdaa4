//! A bump allocator over the boot memory map.
//!
//! The allocator walks a forward-only cursor over the available areas of the
//! boot-provided memory map, skipping the kernel image and the
//! boot-information blob, and yields each 4 KiB frame at most once. It trades
//! reclaim capability for zero bookkeeping: frames are never returned to the
//! pool.

use vstd::prelude::*;
use vstd::arithmetic::power2::pow2;
use crate::memory::addr::Addr;
use crate::memory::addr::is_power_of_two;
use crate::memory::addr::lemma_align_down_multiple;
use crate::memory::phys::AllocatedFrame;
use crate::memory::phys::DeallocateError;
use crate::memory::phys::FrameAllocator;
use crate::memory::FRAME_SIZE;
use crate::memory::Size4K;

verus! {

/// The type of one memory-map area, as the boot loader reports it.
#[derive(Clone, Copy, PartialEq, Eq, Structural, Debug)]
pub enum MemoryAreaKind {
    /// Memory free for the operating system to use.
    Available,
    /// A reserved area that must not be used.
    Reserved,
    /// Usable memory holding ACPI information.
    AcpiAvailable,
    /// Reserved memory which needs to be preserved on hibernation.
    ReservedHibernate,
    /// Memory occupied by defective RAM modules.
    Defective,
    /// Any other firmware-specific area type.
    Custom(u32),
}

/// One area of the boot memory map, reduced to plain values: the half-open
/// byte range `[start, end)` and its reported type.
#[derive(Clone, Copy, PartialEq, Eq, Structural, Debug)]
pub struct MemoryArea {
    pub start: usize,
    pub end: usize,
    pub kind: MemoryAreaKind,
}

impl MemoryArea {
    /// The area is free for the operating system to use.
    pub open spec fn spec_available(self) -> bool {
        self.kind == MemoryAreaKind::Available
    }

    /// The range reads forwards and leaves headroom for rounding its end up
    /// to a frame boundary.
    pub open spec fn wf(self) -> bool {
        self.start <= self.end && self.end + FRAME_SIZE <= usize::MAX
    }

    /// Whether the byte at `addr` lies inside the area.
    pub fn contains(&self, addr: Addr) -> (r: bool)
        ensures
            r == (self.start <= addr.0 < self.end),
    {
        self.start <= addr.0 && addr.0 < self.end
    }
}

/// A half-open range of addresses `[start, end)`.
#[derive(Clone, Copy, PartialEq, Eq, Structural, Debug)]
pub struct AddrRange {
    pub start: Addr,
    pub end: Addr,
}

impl AddrRange {
    /// The range reads forwards and leaves headroom for rounding its end up
    /// to a frame boundary.
    pub open spec fn wf(self) -> bool {
        self.start.0 <= self.end.0 && self.end.0 + FRAME_SIZE <= usize::MAX
    }

    /// Whether the byte at `addr` lies inside the range.
    pub fn contains(&self, addr: Addr) -> (r: bool)
        ensures
            r == (self.start.0 <= addr.0 < self.end.0),
    {
        self.start.0 <= addr.0 && addr.0 < self.end.0
    }
}

/// An available area can still provide a whole frame at or past cursor
/// `next` exactly when it has room for one frame ending at or before its end.
pub open spec fn qualifies(area: MemoryArea, next: int) -> bool {
    area.spec_available() && next + FRAME_SIZE <= area.end
}

/// The number of areas that can still provide a frame at or past `next`.
pub open spec fn count_qualifying(areas: Seq<MemoryArea>, next: int) -> nat
    decreases areas.len(),
{
    if areas.len() == 0 {
        0
    } else {
        count_qualifying(areas.drop_last(), next) + if qualifies(areas.last(), next) {
            1nat
        } else {
            0nat
        }
    }
}

/// Moving the cursor forward never makes more areas qualify.
proof fn lemma_count_monotonic(areas: Seq<MemoryArea>, n1: int, n2: int)
    requires
        n1 <= n2,
    ensures
        count_qualifying(areas, n2) <= count_qualifying(areas, n1),
    decreases areas.len(),
{
    if areas.len() > 0 {
        lemma_count_monotonic(areas.drop_last(), n1, n2);
    }
}

/// Moving the cursor forward past an area that qualified strictly shrinks
/// the count of qualifying areas.
proof fn lemma_count_strict(areas: Seq<MemoryArea>, n1: int, n2: int, i: int)
    requires
        n1 <= n2,
        0 <= i < areas.len(),
        qualifies(areas[i], n1),
        !qualifies(areas[i], n2),
    ensures
        count_qualifying(areas, n2) < count_qualifying(areas, n1),
    decreases areas.len(),
{
    if i == areas.len() - 1 {
        lemma_count_monotonic(areas.drop_last(), n1, n2);
    } else {
        lemma_count_strict(areas.drop_last(), n1, n2, i);
    }
}

/// The whole frame `[s, s + FRAME_SIZE)` lies inside the available area.
pub open spec fn frame_within(area: MemoryArea, s: int) -> bool {
    area.spec_available() && area.start <= s && s + FRAME_SIZE <= area.end
}

/// The frame `[s, s + FRAME_SIZE)` does not intersect the range.
pub open spec fn frame_disjoint_from(range: AddrRange, s: int) -> bool {
    range.start.0 >= range.end.0 || s + FRAME_SIZE <= range.start.0 || range.end.0 <= s
}

/// The frame starting at `s` may be handed out: it lies wholly inside some
/// available area and does not intersect the kernel image or the
/// boot-information blob.
pub open spec fn spec_allocatable(
    areas: Seq<MemoryArea>,
    kernel: AddrRange,
    multiboot_info: AddrRange,
    s: int,
) -> bool {
    &&& exists|i: int| 0 <= i < areas.len() && frame_within(#[trigger] areas[i], s)
    &&& frame_disjoint_from(kernel, s)
    &&& frame_disjoint_from(multiboot_info, s)
}

/// Two frame-aligned addresses that differ, differ by at least a whole
/// frame.
proof fn lemma_aligned_gap(a: int, b: int, n: int)
    requires
        n > 0,
        a % n == 0,
        b % n == 0,
        a < b,
    ensures
        a + n <= b,
{
    vstd::arithmetic::div_mod::lemma_fundamental_div_mod(a, n);
    vstd::arithmetic::div_mod::lemma_fundamental_div_mod(b, n);
    let qa = a / n;
    let qb = b / n;
    assert(qa < qb) by (nonlinear_arith)
        requires
            n > 0,
            a == n * qa,
            b == n * qb,
            a < b,
    ;
    assert(a + n <= b) by (nonlinear_arith)
        requires
            n > 0,
            a == n * qa,
            b == n * qb,
            qa < qb,
    ;
}

/// The base frame size is a power of two.
pub proof fn lemma_frame_size_pow2()
    ensures
        is_power_of_two(FRAME_SIZE),
{
    vstd::arithmetic::power2::lemma2_to64();
    assert(12nat < usize::BITS as nat && 4096usize == pow2(12));
}

/// `addr` rounded up to the next frame boundary; an already-aligned address
/// stays where it is.
fn ceil_to_frame(addr: Addr) -> (r: Addr)
    requires
        addr.0 + FRAME_SIZE <= usize::MAX,
    ensures
        r.0 as int % FRAME_SIZE as int == 0,
        addr.0 <= r.0 < addr.0 + FRAME_SIZE,
{
    proof {
        lemma_frame_size_pow2();
        lemma_align_down_multiple(addr.0 + FRAME_SIZE - 1, FRAME_SIZE as int);
    }
    Addr(addr.0 + (FRAME_SIZE - 1)).align_down(FRAME_SIZE)
}

/// Whether the frame `[c, c + FRAME_SIZE)` intersects the range.
fn frame_intersects(range: &AddrRange, c: Addr) -> (r: bool)
    requires
        range.wf(),
    ensures
        r == !frame_disjoint_from(*range, c.0 as int),
{
    if range.start.0 >= range.end.0 {
        false
    } else if c.0 >= range.end.0 {
        false
    } else {
        c.0 + FRAME_SIZE > range.start.0
    }
}

/// Frames yielded by two successive calls to `allocate` on one allocator
/// instance have strictly increasing start addresses; in particular no start
/// address ever repeats.
pub proof fn lemma_allocate_monotonic(
    s0: SimpleFrameAllocator,
    s1: SimpleFrameAllocator,
    s2: SimpleFrameAllocator,
    f1: AllocatedFrame<Size4K>,
    f2: AllocatedFrame<Size4K>,
)
    requires
        SimpleFrameAllocator::spec_allocate_post(s0, s1, Some(f1)),
        SimpleFrameAllocator::spec_allocate_post(s1, s2, Some(f2)),
    ensures
        f1.spec_start().0 < f2.spec_start().0,
{
}

/// Once `allocate` has reported exhaustion, every later call reports
/// exhaustion as well: no available area can serve the cursor, and the
/// cursor only moves forward.
pub proof fn lemma_allocate_exhausted_stays(
    s0: SimpleFrameAllocator,
    s1: SimpleFrameAllocator,
    s2: SimpleFrameAllocator,
    r: Option<AllocatedFrame<Size4K>>,
)
    requires
        SimpleFrameAllocator::spec_allocate_post(s0, s1, None),
        SimpleFrameAllocator::spec_allocate_post(s1, s2, r),
    ensures
        r is None,
{
    if r is Some {
        let f = r->Some_0;
        assert(spec_allocatable(s1.areas@, s1.kernel, s1.multiboot_info, f.spec_start().0 as int));
    }
}

/// The error returned when an allocator cannot be built from the boot data:
/// either a required piece is missing altogether (boot-fatal for the caller),
/// or a reported range is malformed.
#[derive(Clone, Copy, PartialEq, Eq, Structural, Debug)]
pub enum BootDataError {
    /// The boot data lists no ELF section, so the kernel image's extent
    /// cannot be determined.
    MissingElfSections,
    /// A memory-map area overflows the address space (no headroom left to
    /// round its end up to a frame boundary).
    InvalidMemoryArea,
    /// An ELF section overflows the address space.
    InvalidElfSection,
    /// The boot-information blob's extent overflows the address space.
    InvalidBootInfoRange,
}

/// One memory-map area exactly as the boot loader reports it: a start
/// address and a byte length.
#[derive(Clone, Copy, PartialEq, Eq, Structural, Debug)]
pub struct RawMemoryArea {
    pub start: u64,
    pub size: u64,
    pub kind: MemoryAreaKind,
}

/// One loaded ELF section of the kernel image: a start address and a byte
/// length.
#[derive(Clone, Copy, PartialEq, Eq, Structural, Debug)]
pub struct RawElfSection {
    pub start: u64,
    pub size: u64,
}

/// The section fits the address space, with headroom for rounding its end
/// up to a frame boundary.
pub open spec fn section_ok(s: RawElfSection) -> bool {
    s.start + s.size + FRAME_SIZE <= usize::MAX
}

/// The reported area fits the address space, with headroom for rounding its
/// end up to a frame boundary.
pub open spec fn raw_area_ok(a: RawMemoryArea) -> bool {
    a.start + a.size + FRAME_SIZE <= usize::MAX
}

/// The boot-information blob's extent fits the address space, with headroom
/// for rounding its end up to a frame boundary.
pub open spec fn boot_info_range_ok(start: u64, size: u64) -> bool {
    start + size + FRAME_SIZE <= usize::MAX
}

/// The memory-map area a raw report converts to.
pub open spec fn spec_area_of(a: RawMemoryArea) -> MemoryArea {
    MemoryArea { start: a.start as usize, end: (a.start + a.size) as usize, kind: a.kind }
}

/// The smallest start address of any listed section (zero for an empty
/// list).
pub open spec fn min_section_start(s: Seq<RawElfSection>) -> int
    decreases s.len(),
{
    if s.len() == 0 {
        0
    } else if s.len() == 1 {
        s[0].start as int
    } else {
        let rest = min_section_start(s.drop_last());
        if (s.last().start as int) < rest {
            s.last().start as int
        } else {
            rest
        }
    }
}

/// The largest end address (start plus size) of any listed section (zero
/// for an empty list).
pub open spec fn max_section_end(s: Seq<RawElfSection>) -> int
    decreases s.len(),
{
    if s.len() == 0 {
        0
    } else if s.len() == 1 {
        s[0].start + s[0].size
    } else {
        let rest = max_section_end(s.drop_last());
        if s.last().start + s.last().size > rest {
            s.last().start + s.last().size
        } else {
            rest
        }
    }
}

/// The extremes over the sections are attained by some section and bound
/// every section.
proof fn lemma_section_bounds(s: Seq<RawElfSection>)
    requires
        s.len() > 0,
    ensures
        exists|i: int| 0 <= i < s.len() && min_section_start(s) == s[i].start as int,
        forall|i: int| 0 <= i < s.len() ==> min_section_start(s) <= (#[trigger] s[i]).start as int,
        exists|i: int| 0 <= i < s.len() && max_section_end(s) == s[i].start + s[i].size,
        forall|i: int| 0 <= i < s.len() ==> max_section_end(s) >= (#[trigger] s[i]).start + s[i].size,
    decreases s.len(),
{
    if s.len() == 1 {
        assert(0 <= 0 < s.len() && min_section_start(s) == s[0].start as int);
        assert(0 <= 0 < s.len() && max_section_end(s) == s[0].start + s[0].size);
    } else {
        let t = s.drop_last();
        lemma_section_bounds(t);
        assert(forall|i: int| 0 <= i < t.len() ==> s[i] == #[trigger] t[i]);
        let im = choose|i: int| 0 <= i < t.len() && min_section_start(t) == t[i].start as int;
        let ix = choose|i: int| 0 <= i < t.len() && max_section_end(t) == t[i].start + t[i].size;
        let last = s.len() - 1;
        if (s[last].start as int) < min_section_start(t) {
            assert(min_section_start(s) == s[last].start as int);
        } else {
            assert(min_section_start(s) == s[im].start as int);
        }
        if s[last].start + s[last].size > max_section_end(t) {
            assert(max_section_end(s) == s[last].start + s[last].size);
        } else {
            assert(max_section_end(s) == s[ix].start + s[ix].size);
        }
        assert forall|i: int| 0 <= i < s.len() implies min_section_start(s) <= (
        #[trigger] s[i]).start as int by {
            if i < last {
                assert(s[i] == t[i]);
                assert(min_section_start(t) <= t[i].start as int);
            }
        }
        assert forall|i: int| 0 <= i < s.len() implies max_section_end(s) >= (
        #[trigger] s[i]).start + s[i].size by {
            if i < last {
                assert(s[i] == t[i]);
                assert(max_section_end(t) >= t[i].start + t[i].size);
            }
        }
    }
}

/// A transient, boot-scoped cursor over the memory map: yields the available
/// frames outside the kernel image and the boot-information blob, each at
/// most once, in strictly increasing address order.
#[derive(Debug)]
pub struct SimpleFrameAllocator {
    /// The cursor: no frame starting below it is ever yielded again.
    pub next: Addr,
    /// The boot memory map.
    pub areas: Vec<MemoryArea>,
    /// The area the cursor currently draws from.
    pub current_area: Option<MemoryArea>,
    /// The kernel image's extent, excluded from allocation.
    pub kernel: AddrRange,
    /// The boot-information blob's extent, excluded from allocation.
    pub multiboot_info: AddrRange,
}

impl SimpleFrameAllocator {
    /// The allocator's invariant: the cursor is frame-aligned, every recorded
    /// range reads forwards with headroom for alignment, and the selected
    /// area, when there is one, is an available area of the map; when there
    /// is none, no area can provide a frame at or past the cursor.
    pub open spec fn spec_wf(self) -> bool {
        &&& self.next.0 as int % FRAME_SIZE as int == 0
        &&& self.kernel.wf()
        &&& self.multiboot_info.wf()
        &&& forall|i: int| 0 <= i < self.areas@.len() ==> (#[trigger] self.areas@[i]).wf()
        &&& match self.current_area {
            None => forall|i: int|
                0 <= i < self.areas@.len() ==> !qualifies(
                    #[trigger] self.areas@[i],
                    self.next.0 as int,
                ),
            Some(a) => {
                &&& a.wf()
                &&& a.spec_available()
                &&& exists|i: int| 0 <= i < self.areas@.len() && self.areas@[i] == a
                &&& forall|j: int|
                    0 <= j < self.areas@.len() && qualifies(
                        #[trigger] self.areas@[j],
                        self.next.0 as int,
                    ) ==> a.start <= self.areas@[j].start
            },
        }
    }

    /// Everything one call to `allocate` promises. A yielded frame is
    /// frame-aligned, starts at or past the prior cursor, lies wholly inside
    /// an available area of the map, does not intersect the kernel image or
    /// the boot-information blob, and is the first such frame: no earlier
    /// frame at or past the prior cursor could have been handed out. The
    /// cursor moves to just past the yielded frame, so no start address can
    /// ever repeat. Nothing is yielded exactly when no frame at or past the
    /// prior cursor can be handed out at all, and the allocator stays
    /// exhausted.
    pub open spec fn spec_allocate_post(
        pre: Self,
        post: Self,
        r: Option<AllocatedFrame<Size4K>>,
    ) -> bool {
        &&& post.areas == pre.areas
        &&& post.kernel == pre.kernel
        &&& post.multiboot_info == pre.multiboot_info
        &&& pre.next.0 <= post.next.0
        &&& match r {
            Some(f) => {
                &&& f.spec_start().0 as int % FRAME_SIZE as int == 0
                &&& pre.next.0 <= f.spec_start().0
                &&& post.next.0 == f.spec_start().0 + FRAME_SIZE
                &&& exists|i: int|
                    0 <= i < pre.areas@.len() && frame_within(
                        #[trigger] pre.areas@[i],
                        f.spec_start().0 as int,
                    )
                &&& frame_disjoint_from(pre.kernel, f.spec_start().0 as int)
                &&& frame_disjoint_from(pre.multiboot_info, f.spec_start().0 as int)
                &&& forall|s: int|
                    pre.next.0 <= s < f.spec_start().0 && s % FRAME_SIZE as int == 0
                        ==> !spec_allocatable(pre.areas@, pre.kernel, pre.multiboot_info, s)
            },
            None => {
                &&& post.current_area is None
                &&& forall|s: int|
                    s >= pre.next.0 && s % FRAME_SIZE as int == 0 ==> !spec_allocatable(
                        pre.areas@,
                        pre.kernel,
                        pre.multiboot_info,
                        s,
                    )
            },
        }
    }

    /// One when the selected area can no longer provide a frame at the
    /// cursor and must be re-selected; zero otherwise. Second component of
    /// the termination measure of `allocate`.
    spec fn spec_stale(self) -> int {
        match self.current_area {
            Some(a) => if qualifies(a, self.next.0 as int) {
                0int
            } else {
                1int
            },
            None => 0int,
        }
    }

    /// Builds the allocator from the boot data, reduced to plain values: the
    /// memory map, the kernel's loaded ELF sections (whose overall extent is
    /// excluded from allocation), and the boot-information blob's extent
    /// (`mb_start` and its byte length `mb_size`, also excluded). Reading
    /// these values out of the boot-information blob is the caller's edge
    /// work; a blob that carries no memory-map tag at all is boot-fatal
    /// there, before any allocator exists.
    ///
    /// The kernel extent is the smallest section start through the largest
    /// section end. An empty section list leaves the kernel extent undefined
    /// and is rejected, as are a section, the blob extent, or a memory-map
    /// area that reaches so high that its end cannot be rounded up to a
    /// frame boundary. The cursor starts at address zero, with the area
    /// selection already made.
    pub fn new(
        raw_areas: Vec<RawMemoryArea>,
        sections: &Vec<RawElfSection>,
        mb_start: u64,
        mb_size: u64,
    ) -> (r: Result<SimpleFrameAllocator, BootDataError>)
        ensures
            sections@.len() == 0 ==> r == Err::<SimpleFrameAllocator, BootDataError>(
                BootDataError::MissingElfSections,
            ),
            sections@.len() > 0 && (exists|i: int|
                0 <= i < sections@.len() && !section_ok(#[trigger] sections@[i])) ==> r == Err::<
                SimpleFrameAllocator,
                BootDataError,
            >(BootDataError::InvalidElfSection),
            sections@.len() > 0 && (forall|i: int|
                0 <= i < sections@.len() ==> section_ok(#[trigger] sections@[i]))
                && !boot_info_range_ok(mb_start, mb_size) ==> r == Err::<
                SimpleFrameAllocator,
                BootDataError,
            >(BootDataError::InvalidBootInfoRange),
            sections@.len() > 0 && (forall|i: int|
                0 <= i < sections@.len() ==> section_ok(#[trigger] sections@[i]))
                && boot_info_range_ok(mb_start, mb_size) && (exists|i: int|
                0 <= i < raw_areas@.len() && !raw_area_ok(#[trigger] raw_areas@[i])) ==> r == Err::<
                SimpleFrameAllocator,
                BootDataError,
            >(BootDataError::InvalidMemoryArea),
            sections@.len() > 0 && (forall|i: int|
                0 <= i < sections@.len() ==> section_ok(#[trigger] sections@[i]))
                && boot_info_range_ok(mb_start, mb_size) && (forall|i: int|
                0 <= i < raw_areas@.len() ==> raw_area_ok(#[trigger] raw_areas@[i])) ==> (
            r matches Ok(a) && {
                &&& a.spec_wf()
                &&& a.next.0 == 0
                &&& a.kernel.start.0 == min_section_start(sections@)
                &&& a.kernel.end.0 == max_section_end(sections@)
                &&& a.multiboot_info.start.0 == mb_start
                &&& a.multiboot_info.end.0 == mb_start + mb_size
                &&& a.areas@.len() == raw_areas@.len()
                &&& forall|i: int|
                    0 <= i < raw_areas@.len() ==> a.areas@[i] == spec_area_of(
                        #[trigger] raw_areas@[i],
                    )
                &&& match a.current_area {
                    None => forall|i: int|
                        0 <= i < a.areas@.len() ==> !qualifies(#[trigger] a.areas@[i], 0),
                    Some(ar) => {
                        &&& qualifies(ar, 0)
                        &&& exists|i: int| 0 <= i < a.areas@.len() && a.areas@[i] == ar
                        &&& forall|j: int|
                            0 <= j < a.areas@.len() && qualifies(#[trigger] a.areas@[j], 0)
                                ==> ar.start <= a.areas@[j].start
                    },
                }
            }),
    {
        if sections.len() == 0 {
            return Err(BootDataError::MissingElfSections);
        }
        let limit: u64 = usize::MAX as u64 - FRAME_SIZE as u64;
        let first = sections[0];
        if first.size > limit || first.start > limit - first.size {
            return Err(BootDataError::InvalidElfSection);
        }
        let mut kmin: u64 = first.start;
        let mut kmax: u64 = first.start + first.size;
        let mut i: usize = 1;
        while i < sections.len()
            invariant
                1 <= i <= sections@.len(),
                sections@.len() > 0,
                limit == usize::MAX as u64 - FRAME_SIZE as u64,
                forall|j: int| 0 <= j < i ==> section_ok(#[trigger] sections@[j]),
                kmin as int == min_section_start(sections@.take(i as int)),
                kmax as int == max_section_end(sections@.take(i as int)),
                kmax <= limit,
            decreases sections@.len() - i,
        {
            let s = sections[i];
            if s.size > limit || s.start > limit - s.size {
                return Err(BootDataError::InvalidElfSection);
            }
            proof {
                assert(sections@.take(i + 1).drop_last() =~= sections@.take(i as int));
                assert(sections@.take(i + 1).last() == sections@[i as int]);
            }
            if s.start < kmin {
                kmin = s.start;
            }
            if s.start + s.size > kmax {
                kmax = s.start + s.size;
            }
            i = i + 1;
        }
        proof {
            assert(sections@.take(sections@.len() as int) =~= sections@);
            lemma_section_bounds(sections@);
        }
        if mb_size > limit || mb_start > limit - mb_size {
            return Err(BootDataError::InvalidBootInfoRange);
        }
        let mut areas: Vec<MemoryArea> = Vec::new();
        let mut j: usize = 0;
        while j < raw_areas.len()
            invariant
                j <= raw_areas@.len(),
                limit == usize::MAX as u64 - FRAME_SIZE as u64,
                sections@.len() > 0,
                forall|k: int| 0 <= k < sections@.len() ==> section_ok(#[trigger] sections@[k]),
                kmin as int == min_section_start(sections@),
                kmax as int == max_section_end(sections@),
                kmax <= limit,
                boot_info_range_ok(mb_start, mb_size),
                areas@.len() == j,
                forall|k: int| 0 <= k < j ==> raw_area_ok(#[trigger] raw_areas@[k]),
                forall|k: int| 0 <= k < j ==> areas@[k] == spec_area_of(#[trigger] raw_areas@[k]),
                forall|k: int| 0 <= k < j ==> (#[trigger] areas@[k]).wf(),
            decreases raw_areas@.len() - j,
        {
            let ra = raw_areas[j];
            if ra.size > limit || ra.start > limit - ra.size {
                return Err(BootDataError::InvalidMemoryArea);
            }
            areas.push(
                MemoryArea { start: ra.start as usize, end: (ra.start + ra.size) as usize, kind: ra.kind },
            );
            j = j + 1;
        }
        proof {
            lemma_section_bounds(sections@);
        }
        let kernel = AddrRange { start: Addr(kmin as usize), end: Addr(kmax as usize) };
        let multiboot_info = AddrRange {
            start: Addr(mb_start as usize),
            end: Addr((mb_start + mb_size) as usize),
        };
        let mut allocator = SimpleFrameAllocator {
            next: Addr(0),
            areas,
            current_area: None,
            kernel,
            multiboot_info,
        };
        allocator.next_area();
        Ok(allocator)
    }

    /// Re-selects the current area: among the available areas that can still
    /// provide a whole frame at or past the cursor, the one with the smallest
    /// start address; none when no area can.
    pub fn next_area(&mut self)
        requires
            forall|i: int| 0 <= i < old(self).areas@.len() ==> (#[trigger] old(self).areas@[i]).wf(),
        ensures
            final(self).next == old(self).next,
            final(self).areas == old(self).areas,
            final(self).kernel == old(self).kernel,
            final(self).multiboot_info == old(self).multiboot_info,
            match final(self).current_area {
                None => forall|i: int|
                    0 <= i < old(self).areas@.len() ==> !qualifies(
                        #[trigger] old(self).areas@[i],
                        old(self).next.0 as int,
                    ),
                Some(a) => {
                    &&& qualifies(a, old(self).next.0 as int)
                    &&& exists|i: int| 0 <= i < old(self).areas@.len() && old(self).areas@[i] == a
                    &&& forall|j: int|
                        0 <= j < old(self).areas@.len() && qualifies(
                            #[trigger] old(self).areas@[j],
                            old(self).next.0 as int,
                        ) ==> a.start <= old(self).areas@[j].start
                },
            },
    {
        let mut best: Option<MemoryArea> = None;
        let mut idx: usize = 0;
        while idx < self.areas.len()
            invariant
                idx <= self.areas@.len(),
                forall|i: int| 0 <= i < self.areas@.len() ==> (#[trigger] self.areas@[i]).wf(),
                match best {
                    None => forall|i: int|
                        0 <= i < idx ==> !qualifies(#[trigger] self.areas@[i], self.next.0 as int),
                    Some(b) => {
                        &&& qualifies(b, self.next.0 as int)
                        &&& exists|i: int| 0 <= i < idx && self.areas@[i] == b
                        &&& forall|j: int|
                            0 <= j < idx && qualifies(
                                #[trigger] self.areas@[j],
                                self.next.0 as int,
                            ) ==> b.start <= self.areas@[j].start
                    },
                },
            decreases self.areas@.len() - idx,
        {
            let area = self.areas[idx];
            let has_room = area.end >= FRAME_SIZE && self.next.0 <= area.end - FRAME_SIZE;
            let is_available = matches!(area.kind, MemoryAreaKind::Available);
            if has_room && is_available {
                best = match best {
                    None => Some(area),
                    Some(b) => if area.start < b.start {
                        Some(area)
                    } else {
                        Some(b)
                    },
                };
            }
            idx = idx + 1;
        }
        self.current_area = best;
    }
}

impl FrameAllocator<Size4K> for SimpleFrameAllocator {
    open spec fn wf(&self) -> bool {
        self.spec_wf()
    }

    open spec fn allocate_post(pre: Self, post: Self, r: Option<AllocatedFrame<Size4K>>) -> bool {
        Self::spec_allocate_post(pre, post, r)
    }

    /// Yields the next frame wholly inside an available area, past the
    /// kernel image and the boot-information blob, or nothing when the map
    /// is exhausted. An explicit loop, not recursion: advancing across many
    /// consecutive exhausted areas must not grow the stack.
    fn allocate(&mut self) -> (r: Option<AllocatedFrame<Size4K>>) {
        loop
            invariant
                self.spec_wf(),
                self.areas == old(self).areas,
                self.kernel == old(self).kernel,
                self.multiboot_info == old(self).multiboot_info,
                old(self).next.0 <= self.next.0,
                forall|s: int|
                    old(self).next.0 <= s < self.next.0 && s % FRAME_SIZE as int == 0
                        ==> !spec_allocatable(self.areas@, self.kernel, self.multiboot_info, s),
            decreases
                    count_qualifying(self.areas@, self.next.0 as int),
                    self.spec_stale(),
        {
            let area = match self.current_area {
                None => {
                    // No area can serve any cursor position from here on.
                    proof {
                        assert forall|s: int|
                            s >= old(self).next.0 && s % FRAME_SIZE as int == 0 implies
                            !spec_allocatable(
                                self.areas@,
                                self.kernel,
                                self.multiboot_info,
                                s,
                            ) by {
                            if s >= self.next.0 && spec_allocatable(
                                self.areas@,
                                self.kernel,
                                self.multiboot_info,
                                s,
                            ) {
                                let i = choose|i: int|
                                    0 <= i < self.areas@.len() && frame_within(
                                        #[trigger] self.areas@[i],
                                        s,
                                    );
                                assert(qualifies(self.areas@[i], self.next.0 as int));
                            }
                        }
                    }
                    return None;
                },
                Some(a) => a,
            };
            let ghost n0 = self.next.0 as int;
            // The candidate starts at the cursor, moved up to the area's
            // first whole frame.
            let mut candidate = self.next;
            let area_first = ceil_to_frame(Addr(area.start));
            if candidate.0 < area_first.0 {
                candidate = area_first;
            }
            let ghost c1 = candidate.0 as int;
            // Clamp the candidate past whichever exclusion its frame falls
            // into. One clamp is not enough when the two excluded ranges
            // overlap or touch, so the check runs again after each move; a
            // third check settles both orders.
            let kernel_clear = ceil_to_frame(self.kernel.end);
            let mb_clear = ceil_to_frame(self.multiboot_info.end);
            if frame_intersects(&self.kernel, candidate) {
                candidate = kernel_clear;
            }
            let ghost c2 = candidate.0 as int;
            if frame_intersects(&self.multiboot_info, candidate) {
                candidate = mb_clear;
            }
            let ghost c3 = candidate.0 as int;
            if frame_intersects(&self.kernel, candidate) {
                candidate = kernel_clear;
            }
            let ghost c4 = candidate.0 as int;
            assert(frame_disjoint_from(self.kernel, candidate.0 as int));
            assert(frame_disjoint_from(self.multiboot_info, candidate.0 as int));
            // Nothing the candidate moved past could have been handed out:
            // below the selected area's first whole frame any containing area
            // would start below the selected one, and each clamp only moved
            // past frames overlapping an excluded range.
            proof {
                assert forall|s: int|
                    n0 <= s < c4 && s % FRAME_SIZE as int == 0 implies !spec_allocatable(
                        self.areas@,
                        self.kernel,
                        self.multiboot_info,
                        s,
                    ) by {
                    if s < c1 {
                        lemma_aligned_gap(s, c1, FRAME_SIZE as int);
                        if spec_allocatable(self.areas@, self.kernel, self.multiboot_info, s) {
                            let i = choose|i: int|
                                0 <= i < self.areas@.len() && frame_within(
                                    #[trigger] self.areas@[i],
                                    s,
                                );
                            assert(qualifies(self.areas@[i], n0));
                            assert(s < area.start);
                            assert(false);
                        }
                    } else if s < c2 {
                        lemma_aligned_gap(s, c2, FRAME_SIZE as int);
                        assert(!frame_disjoint_from(self.kernel, s));
                    } else if s < c3 {
                        lemma_aligned_gap(s, c3, FRAME_SIZE as int);
                        assert(!frame_disjoint_from(self.multiboot_info, s));
                    } else {
                        lemma_aligned_gap(s, c4, FRAME_SIZE as int);
                        assert(!frame_disjoint_from(self.kernel, s));
                    }
                }
            }
            if area.end >= FRAME_SIZE && candidate.0 <= area.end - FRAME_SIZE {
                // A whole frame fits: yield it and advance the cursor past it.
                proof {
                    vstd::arithmetic::div_mod::lemma_mod_multiples_vanish(
                        1,
                        candidate.0 as int,
                        FRAME_SIZE as int,
                    );
                }
                self.next = Addr(candidate.0 + FRAME_SIZE);
                return Some(AllocatedFrame::<Size4K>::containing_addr(candidate));
            } else {
                // The area is exhausted at this cursor: move the cursor up
                // and re-select. The count of areas that can still serve
                // shrinks (or the stale selection is replaced), so the loop
                // terminates.
                proof {
                    if qualifies(area, n0) {
                        let i = choose|i: int|
                            0 <= i < self.areas@.len() && self.areas@[i] == area;
                        lemma_count_strict(self.areas@, n0, candidate.0 as int, i);
                    } else {
                        lemma_count_monotonic(self.areas@, n0, candidate.0 as int);
                    }
                }
                self.next = candidate;
                self.next_area();
            }
        }
    }

    /// Deallocation has no defined semantics in this design: fail loudly,
    /// change nothing.
    fn deallocate(&mut self, _frame: AllocatedFrame<Size4K>) -> (r: Result<(), DeallocateError>) {
        Err(DeallocateError::Unsupported)
    }
}

} // verus!
