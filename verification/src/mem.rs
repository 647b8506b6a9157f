//! Physical frames handed out from the firmware's memory map, and the table
//! that maps virtual pages to them.

use vstd::prelude::*;
use std::collections::HashMap;

verus! {

/// Bytes in a frame and in a page.
pub const PAGE_SIZE: u64 = 4096;

/// What the firmware says a stretch of physical memory is.
#[derive(Clone, Copy, Debug, PartialEq, Eq, Structural)]
pub enum MemoryRegionKind {
    /// Free for the kernel to use.
    Usable,
    /// Taken by the bootloader.
    Bootloader,
    /// Reserved by the firmware for a purpose of its own.
    Reserved,
}

/// A stretch of physical memory from `start` up to, not including, `end`.
#[derive(Clone, Copy, Debug, PartialEq, Eq, Structural)]
pub struct MemoryRegion {
    pub start: u64,
    pub end: u64,
    pub kind: MemoryRegionKind,
}

/// The start of the frame or page that holds `addr`.
pub open spec fn align_down(addr: int) -> int {
    addr - addr % (PAGE_SIZE as int)
}

impl MemoryRegion {
    /// How many frames the region yields: one for every 4 KiB step from its
    /// start that stays below its end, and none where it is not usable.
    pub open spec fn frames(self) -> int {
        if self.kind == MemoryRegionKind::Usable && self.start < self.end {
            (self.end - self.start - 1) / (PAGE_SIZE as int) + 1
        } else {
            0
        }
    }

    /// The region's frame number `n`, counted from zero.
    pub open spec fn frame(self, n: int) -> int {
        align_down(self.start + n * PAGE_SIZE)
    }
}

/// Frame number `n` of a memory map: the usable regions are walked in turn,
/// each in steps of 4 KiB from its start.
pub open spec fn frame_at(regions: Seq<MemoryRegion>, n: int) -> Option<u64>
    decreases regions.len(),
{
    if regions.len() == 0 || n < 0 {
        None
    } else if n < regions[0].frames() {
        Some(regions[0].frame(n) as u64)
    } else {
        frame_at(regions.skip(1), n - regions[0].frames())
    }
}

/// All the memory that the map describes, usable or not.
pub open spec fn total_size(regions: Seq<MemoryRegion>) -> int
    decreases regions.len(),
{
    if regions.len() == 0 {
        0
    } else {
        total_size(regions.drop_last()) + if regions.last().start <= regions.last().end {
            regions.last().end - regions.last().start
        } else {
            0
        }
    }
}

/// Hands out the frames of a memory map one after the other and never takes
/// one back.
pub struct BootInfoFrameAllocator {
    pub memory_regions: Vec<MemoryRegion>,
    pub next: usize,
}

impl BootInfoFrameAllocator {
    /// An allocator that has handed out nothing yet.
    pub fn init(memory_regions: Vec<MemoryRegion>) -> (allocator: Self)
        ensures
            allocator.memory_regions == memory_regions,
            allocator.next == 0,
    {
        BootInfoFrameAllocator { memory_regions, next: 0 }
    }

    /// The frame that call number `n` returns.
    pub open spec fn usable_frame(&self, n: int) -> Option<u64> {
        frame_at(self.memory_regions@, n)
    }

    /// Returns the next frame of the map, or nothing once the map is used
    /// up. The count of calls goes up either way.
    pub fn allocate_frame(&mut self) -> (frame: Option<u64>)
        ensures
            frame == old(self).usable_frame(old(self).next as int),
            final(self).memory_regions == old(self).memory_regions,
            final(self).next == if old(self).next < usize::MAX {
                old(self).next + 1
            } else {
                old(self).next as int
            },
    {
        let n: usize = self.next;
        if self.next < usize::MAX {
            self.next = self.next + 1;
        }
        let mut remaining: u64 = n as u64;
        let mut i: usize = 0;
        assert(self.memory_regions@.skip(0) =~= self.memory_regions@);
        while i < self.memory_regions.len()
            invariant
                i <= self.memory_regions.len(),
                self.memory_regions == old(self).memory_regions,
                n == old(self).next,
                self.next == if n < usize::MAX {
                    n + 1
                } else {
                    n as int
                },
                frame_at(self.memory_regions@, n as int) == frame_at(
                    self.memory_regions@.skip(i as int),
                    remaining as int,
                ),
            decreases self.memory_regions.len() - i,
        {
            let region = self.memory_regions[i];
            let ghost rest = self.memory_regions@.skip(i as int);
            assert(rest[0] == region);
            assert(rest.skip(1) =~= self.memory_regions@.skip(i + 1));
            if region.kind == MemoryRegionKind::Usable && region.start < region.end {
                let count: u64 = (region.end - region.start - 1) / PAGE_SIZE + 1;
                if remaining < count {
                    assert(remaining * 4096 <= region.end - region.start - 1) by (nonlinear_arith)
                        requires
                            remaining < count,
                            count == (region.end - region.start - 1) / 4096 + 1,
                            region.start < region.end,
                    ;
                    let addr: u64 = region.start + remaining * PAGE_SIZE;
                    assert(count == region.frames());
                    assert(addr - addr % PAGE_SIZE == region.frame(remaining as int));
                    return Some(addr - addr % PAGE_SIZE);
                }
                remaining = remaining - count;
            }
            i = i + 1;
        }
        None
    }
}

/// A frame that a usable region yields starts on a 4 KiB boundary and does
/// not reach past the region's end; where the region itself starts on such a
/// boundary, the frame lies inside the region, `n` frames from its start.
pub proof fn lemma_frame_in_region(region: MemoryRegion, n: int)
    requires
        0 <= n < region.frames(),
    ensures
        region.frame(n) % (PAGE_SIZE as int) == 0,
        region.frame(n) < region.end,
        region.start % PAGE_SIZE == 0 ==> region.frame(n) == region.start + n * PAGE_SIZE,
        region.start % PAGE_SIZE == 0 ==> region.start <= region.frame(n),
{
    let a = region.start + n * 4096;
    assert(n * 4096 <= region.end - region.start - 1) by (nonlinear_arith)
        requires
            0 <= n < (region.end - region.start - 1) / 4096 + 1,
            region.start < region.end,
    ;
    vstd::arithmetic::div_mod::lemma_fundamental_div_mod(a, 4096);
    vstd::arithmetic::div_mod::lemma_mod_bound(a, 4096);
    assert((a - a % 4096) % 4096 == 0) by {
        vstd::arithmetic::div_mod::lemma_mod_multiples_basic(a / 4096, 4096);
        assert(a - a % 4096 == 4096 * (a / 4096));
        assert(4096 * (a / 4096) == (a / 4096) * 4096);
    }
    if region.start % PAGE_SIZE == 0 {
        assert(a % 4096 == 0) by (nonlinear_arith)
            requires
                a == region.start + n * 4096,
                region.start % 4096 == 0,
        ;
    }
}

/// How many frames the first `count` regions of a memory map yield
/// together.
pub open spec fn frames_before(regions: Seq<MemoryRegion>, count: int) -> int
    decreases count,
{
    if count <= 0 {
        0
    } else {
        frames_before(regions, count - 1) + regions[count - 1].frames()
    }
}

/// Whether frame number `n` of a memory map is a frame of region `i`: the
/// region is usable, the count of frames passes `n` in it, and the frame is
/// the one whose number in the region is `n` less the frames of the
/// regions before it. Where the region starts on a 4 KiB boundary, the
/// frame lies inside the region.
pub open spec fn frame_in(regions: Seq<MemoryRegion>, n: int, i: int) -> bool {
    &&& 0 <= i < regions.len()
    &&& regions[i].kind == MemoryRegionKind::Usable
    &&& frames_before(regions, i) <= n < frames_before(regions, i + 1)
    &&& frame_at(regions, n) == Some(regions[i].frame(n - frames_before(regions, i)) as u64)
    &&& regions[i].start % PAGE_SIZE == 0 ==> regions[i].start <= frame_at(regions, n).unwrap()
        < regions[i].end
}

/// The frame that allocation number `n` returns starts on a 4 KiB
/// boundary, and it is frame number `n` among the frames of the usable
/// regions taken in their order.
pub proof fn lemma_frame_at(regions: Seq<MemoryRegion>, n: int)
    requires
        frame_at(regions, n) is Some,
    ensures
        frame_at(regions, n).unwrap() % PAGE_SIZE == 0,
        exists|i: int| frame_in(regions, n, i),
    decreases regions.len(),
{
    if n < regions[0].frames() {
        lemma_frame_in_region(regions[0], n);
        assert(frames_before(regions, 0) == 0);
        assert(frames_before(regions, 1) == regions[0].frames());
        assert(frame_in(regions, n, 0));
    } else {
        let rest = regions.skip(1);
        let first = regions[0].frames();
        let m = n - first;
        lemma_frame_at(rest, m);
        let i = choose|i: int| frame_in(rest, m, i);
        lemma_frames_before_skip(regions, i);
        if i > 0 {
            lemma_frames_before_skip(regions, i - 1);
        } else {
            assert(frames_before(rest, 0) == 0);
            assert(frames_before(regions, 1) == first);
        }
        assert(rest[i] == regions[i + 1]);
        assert(frames_before(regions, i + 1) == first + frames_before(rest, i));
        assert(frames_before(regions, i + 2) == first + frames_before(rest, i + 1));
        assert(frame_in(regions, n, i + 1));
    }
}

/// The frames of the regions after the first are those of all the regions
/// less those of the first.
proof fn lemma_frames_before_skip(regions: Seq<MemoryRegion>, count: int)
    requires
        regions.len() > 0,
        0 <= count < regions.len(),
    ensures
        frames_before(regions, count + 1) == regions[0].frames() + frames_before(
            regions.skip(1),
            count,
        ),
    decreases count,
{
    if count > 0 {
        lemma_frames_before_skip(regions, count - 1);
        assert(regions.skip(1)[count - 1] == regions[count]);
    } else {
        assert(frames_before(regions, 0) == 0);
    }
}

/// The page is mapped.
pub const PRESENT: u64 = 0x1;

/// The page may be written.
pub const WRITABLE: u64 = 0x2;

/// Code in user mode may reach the page.
pub const USER_ACCESSIBLE: u64 = 0x4;

/// No instruction may be fetched from the page.
pub const NO_EXECUTE: u64 = 0x8000_0000_0000_0000;

/// The flags of a mapping that names none: present, writable, not executable.
pub const DEFAULT_FLAGS: u64 = 0x8000_0000_0000_0003;

/// What a mapped page points to.
#[derive(Clone, Copy, Debug, PartialEq, Eq, Structural)]
pub struct PageEntry {
    pub frame: u64,
    pub flags: u64,
}

/// Why a mapping was not made.
#[derive(Clone, Copy, Debug, PartialEq, Eq, Structural)]
pub enum MapError {
    /// The memory map has no frame left.
    FrameAllocationFailed,
    /// The page is mapped already.
    PageAlreadyMapped,
    /// The range does not end inside the address space.
    OutOfRange,
}

/// Why a mapping was not removed.
#[derive(Clone, Copy, Debug, PartialEq, Eq, Structural)]
pub enum UnmapError {
    PageNotMapped,
}

/// The start of the page that holds `addr`.
pub open spec fn page_of(addr: u64) -> u64 {
    align_down(addr as int) as u64
}

/// The flags of a mapping: those given, else the default ones.
pub open spec fn flags_or_default(flags: Option<u64>) -> u64 {
    match flags {
        Some(f) => f,
        None => DEFAULT_FLAGS,
    }
}

/// How many pages cover the `size` bytes from `start` on.
pub open spec fn page_count(start: u64, size: u64) -> int {
    if size == 0 {
        0
    } else {
        (align_down(start + size - 1) - align_down(start as int)) / (PAGE_SIZE as int) + 1
    }
}

/// The count of frames handed out, one later; it stops at the largest count.
pub open spec fn bump(next: int) -> int {
    if next < usize::MAX {
        next + 1
    } else {
        next
    }
}

/// A page table as contracts see it: the start of each mapped page with
/// what it points to.
pub type Pages = Map<u64, PageEntry>;

/// The physical address that a virtual one is translated to.
pub open spec fn translate(pages: Pages, addr: u64) -> Option<u64> {
    if pages.contains_key(page_of(addr)) && pages[page_of(addr)].frame + addr % PAGE_SIZE
        <= u64::MAX {
        Some((pages[page_of(addr)].frame + addr % PAGE_SIZE) as u64)
    } else {
        None
    }
}

/// The table after an attempt to map a page: unchanged where the page was
/// mapped before.
pub open spec fn map_to(pages: Pages, page: u64, frame: u64, flags: u64) -> (Pages, Result<
    (),
    MapError,
>) {
    if pages.contains_key(page) {
        (pages, Err(MapError::PageAlreadyMapped))
    } else {
        (pages.insert(page, PageEntry { frame, flags }), Ok(()))
    }
}

/// The table after an attempt to map the page of a physical address onto
/// itself.
pub open spec fn identity_mapped(pages: Pages, physical_address: u64, flags: Option<u64>) -> (
    Pages,
    Result<(), MapError>,
) {
    map_to(pages, page_of(physical_address), page_of(physical_address), flags_or_default(flags))
}

/// The table after an attempt to unmap the page that holds `addr`.
pub open spec fn unmapped(pages: Pages, addr: u64) -> (Pages, Result<(), UnmapError>) {
    if pages.contains_key(page_of(addr)) {
        (pages.remove(page_of(addr)), Ok(()))
    } else {
        (pages, Err(UnmapError::PageNotMapped))
    }
}

/// Table, count of frames handed out, and verdict after mapping a run of pages.
pub struct RangeOutcome {
    pub pages: Pages,
    pub next: int,
    pub result: Result<(), MapError>,
}

/// Maps `count` pages from `page` on, each to the next frame of the memory
/// map. The run stops at the first page for which no frame is left or which
/// is mapped already; the pages before it stay mapped.
pub open spec fn map_range(
    pages: Pages,
    regions: Seq<MemoryRegion>,
    next: int,
    page: int,
    count: int,
    flags: u64,
) -> RangeOutcome
    decreases count,
{
    if count <= 0 {
        RangeOutcome { pages, next, result: Ok(()) }
    } else {
        match frame_at(regions, next) {
            None => RangeOutcome {
                pages,
                next: bump(next),
                result: Err(MapError::FrameAllocationFailed),
            },
            Some(frame) => if pages.contains_key(page as u64) {
                RangeOutcome { pages, next: bump(next), result: Err(MapError::PageAlreadyMapped) }
            } else {
                map_range(
                    pages.insert(page as u64, PageEntry { frame, flags }),
                    regions,
                    bump(next),
                    page + PAGE_SIZE,
                    count - 1,
                    flags,
                )
            },
        }
    }
}

/// Table, count of frames handed out, and verdict after an attempt to map
/// every page that covers the `size` bytes from `start` on. A range that
/// passes the end of the address space is refused and nothing is mapped.
pub open spec fn mapped(
    pages: Pages,
    regions: Seq<MemoryRegion>,
    next: int,
    start: u64,
    size: u64,
    flags: Option<u64>,
) -> RangeOutcome {
    if start + size > u64::MAX + 1 {
        RangeOutcome { pages, next, result: Err(MapError::OutOfRange) }
    } else {
        map_range(
            pages,
            regions,
            next,
            page_of(start) as int,
            page_count(start, size),
            flags_or_default(flags),
        )
    }
}

/// Maps every page that covers the `size` bytes from `start` on, in the
/// table `mapper`, each to the next frame that `allocator` hands out.
#[verifier::rlimit(50)]
pub fn map_pages(
    mapper: &mut HashMap<u64, PageEntry>,
    allocator: &mut BootInfoFrameAllocator,
    start: u64,
    size: u64,
    flags: Option<u64>,
) -> (result: Result<(), MapError>)
    ensures
        final(allocator).memory_regions == old(allocator).memory_regions,
        (RangeOutcome {
            pages: final(mapper)@,
            next: final(allocator).next as int,
            result,
        }) == mapped(
            old(mapper)@,
            old(allocator).memory_regions@,
            old(allocator).next as int,
            start,
            size,
            flags,
        ),
{
    broadcast use vstd::std_specs::hash::group_hash_axioms;

    let mode: u64 = match flags {
        Some(f) => f,
        None => DEFAULT_FLAGS,
    };
    if size == 0 {
        return Ok(());
    }
    if start > u64::MAX - (size - 1) {
        return Err(MapError::OutOfRange);
    }
    let end: u64 = start + (size - 1);
    let first: u64 = start - start % PAGE_SIZE;
    let last: u64 = end - end % PAGE_SIZE;
    let count: u64 = (last - first) / PAGE_SIZE + 1;
    assert(first + (count - 1) * 4096 == last) by {
        lemma_aligned_distance(first as int, last as int);
    }
    let mut page: u64 = first;
    let mut done: u64 = 0;
    while done < count
        invariant
            done <= count,
            done < count ==> page == first + done * 4096,
            start + size <= u64::MAX + 1,
            count == page_count(start, size),
            first == page_of(start),
            mode == flags_or_default(flags),
            first + (count - 1) * 4096 == last,
            allocator.memory_regions == old(allocator).memory_regions,
            map_range(
                old(mapper)@,
                old(allocator).memory_regions@,
                old(allocator).next as int,
                first as int,
                count as int,
                mode,
            ) == map_range(
                mapper@,
                allocator.memory_regions@,
                allocator.next as int,
                page as int,
                count - done,
                mode,
            ),
        decreases count - done,
    {
        let frame = match allocator.allocate_frame() {
            Some(frame) => frame,
            None => {
                return Err(MapError::FrameAllocationFailed);
            },
        };
        if mapper.contains_key(&page) {
            return Err(MapError::PageAlreadyMapped);
        }
        mapper.insert(page, PageEntry { frame, flags: mode });
        done = done + 1;
        assert(map_range(
            mapper@,
            allocator.memory_regions@,
            allocator.next as int,
            page as int,
            0,
            mode,
        ) == map_range(
            mapper@,
            allocator.memory_regions@,
            allocator.next as int,
            page + PAGE_SIZE,
            0,
            mode,
        ));
        if done < count {
            assert(first + done * 4096 <= last) by (nonlinear_arith)
                requires
                    done <= count - 1,
                    first + (count - 1) * 4096 == last,
            ;
            page = page + PAGE_SIZE;
        }
    }
    Ok(())
}

/// The start of the last page that the `size` bytes from `start` on
/// touch, cut off at the end of the address space.
pub open spec fn last_page(start: u64, size: u64) -> u64 {
    if start + size - 1 > u64::MAX {
        page_of(u64::MAX)
    } else {
        page_of((start + size - 1) as u64)
    }
}

/// Whether `p` is the start of one of the `count` pages from `first` on.
pub open spec fn in_run(first: u64, count: int, p: u64) -> bool {
    first <= p < first + count * PAGE_SIZE && p % PAGE_SIZE == 0
}

/// Whether `p` is the start of a page that the `size` bytes from `start` on
/// touch.
pub open spec fn covers(start: u64, size: u64, p: u64) -> bool {
    size != 0 && page_of(start) <= p <= last_page(start, size) && p % PAGE_SIZE == 0
}

/// The table without the pages that cover the `size` bytes from `start` on.
pub open spec fn freed(pages: Pages, start: u64, size: u64) -> Pages {
    pages.remove_keys(Set::new(|p: u64| covers(start, size, p)))
}

/// Unmaps every page that covers the `size` bytes from `start` on, as far
/// as it is mapped.
pub fn free_pages(mapper: &mut HashMap<u64, PageEntry>, start: u64, size: u64)
    ensures
        final(mapper)@ == freed(old(mapper)@, start, size),
{
    broadcast use vstd::std_specs::hash::group_hash_axioms;

    if size == 0 {
        assert(mapper@ =~= freed(old(mapper)@, start, size));
        return ;
    }
    let end: u64 = if start > u64::MAX - (size - 1) {
        u64::MAX
    } else {
        start + (size - 1)
    };
    let first: u64 = start - start % PAGE_SIZE;
    let last: u64 = end - end % PAGE_SIZE;
    let count: u64 = (last - first) / PAGE_SIZE + 1;
    assert(first + (count - 1) * 4096 == last) by {
        lemma_aligned_distance(first as int, last as int);
    }
    let mut page: u64 = first;
    let mut done: u64 = 0;
    assert(mapper@ =~= old(mapper)@.remove_keys(Set::new(|p: u64| in_run(first, 0, p))));
    while done < count
        invariant
            done <= count,
            done < count ==> page == first + done * 4096,
            first + (count - 1) * 4096 == last,
            first % 4096 == 0,
            mapper@ == old(mapper)@.remove_keys(Set::new(|p: u64| in_run(first, done as int, p))),
        decreases count - done,
    {
        mapper.remove(&page);
        done = done + 1;
        assert(mapper@ =~= old(mapper)@.remove_keys(
            Set::new(|p: u64| in_run(first, done as int, p)),
        )) by {
            assert forall|p: u64| #[trigger]
                in_run(first, done as int, p) <==> (in_run(first, done - 1, p) || p == page) by {
                lemma_run_step(first, done - 1, p);
            }
        }
        if done < count {
            assert(first + done * 4096 <= last) by (nonlinear_arith)
                requires
                    done <= count - 1,
                    first + (count - 1) * 4096 == last,
            ;
            page = page + PAGE_SIZE;
        }
    }
    assert(mapper@ =~= freed(old(mapper)@, start, size)) by {
        assert forall|p: u64| #[trigger] in_run(first, count as int, p) <==> covers(start, size, p) by {
            lemma_run_step(first, count - 1, p);
        }
        assert(Set::new(|p: u64| in_run(first, count as int, p)) =~= Set::new(
            |p: u64| covers(start, size, p),
        ));
    }
}

/// A run of pages, one page longer, holds the page after its last one
/// besides; and its last page is the only page start from there on.
proof fn lemma_run_step(first: u64, count: int, p: u64)
    requires
        first % 4096 == 0,
        0 <= count,
    ensures
        in_run(first, count + 1, p) <==> (in_run(first, count, p) || p == first + count * 4096),
        in_run(first, count + 1, p) <==> (first <= p <= first + count * 4096 && p % 4096 == 0),
{
    let top = first + count * 4096;
    assert((count + 1) * 4096 == count * 4096 + 4096) by (nonlinear_arith);
    assert(top % 4096 == 0) by (nonlinear_arith)
        requires
            top == first + count * 4096,
            first % 4096 == 0,
    ;
    assert(first <= top) by (nonlinear_arith)
        requires
            top == first + count * 4096,
            0 <= count,
    ;
    if top < p < top + 4096 && p % 4096 == 0 {
        assert(false) by (nonlinear_arith)
            requires
                top < p < top + 4096,
                p % 4096 == 0,
                top % 4096 == 0,
        ;
    }
}

/// Owns the page table and the frame allocator.
pub struct MemoryManager {
    pub mapper: HashMap<u64, PageEntry>,
    pub allocator: BootInfoFrameAllocator,
    pub phys_mem_offset: u64,
    pub memory_size: u64,
}

/// The size of all regions of a memory map, or the largest number where the
/// sum is beyond it.
pub open spec fn capped_size(regions: Seq<MemoryRegion>) -> u64 {
    if total_size(regions) <= u64::MAX {
        total_size(regions) as u64
    } else {
        u64::MAX
    }
}

fn sum_regions(regions: &Vec<MemoryRegion>) -> (size: u64)
    ensures
        size == capped_size(regions@),
{
    let mut size: u64 = 0;
    let mut i: usize = 0;
    assert(regions@.take(0) =~= Seq::<MemoryRegion>::empty());
    while i < regions.len()
        invariant
            i <= regions.len(),
            size == capped_size(regions@.take(i as int)),
            0 <= total_size(regions@.take(i as int)),
        decreases regions.len() - i,
    {
        let region = regions[i];
        assert(regions@.take(i + 1).drop_last() =~= regions@.take(i as int));
        let length: u64 = if region.start <= region.end {
            region.end - region.start
        } else {
            0
        };
        size = if size > u64::MAX - length {
            u64::MAX
        } else {
            size + length
        };
        i = i + 1;
    }
    assert(regions@.take(regions.len() as int) =~= regions@);
    size
}

impl MemoryManager {
    /// The mapped pages.
    pub open spec fn pages(&self) -> Pages {
        self.mapper@
    }

    /// A manager with an empty table over a memory map.
    pub fn new(phys_mem_offset: u64, memory_regions: Vec<MemoryRegion>) -> (manager: Self)
        ensures
            manager.pages() == Pages::empty(),
            manager.allocator.memory_regions == memory_regions,
            manager.allocator.next == 0,
            manager.phys_mem_offset == phys_mem_offset,
            manager.memory_size == capped_size(memory_regions@),
    {
        let memory_size = sum_regions(&memory_regions);
        MemoryManager {
            mapper: HashMap::new(),
            allocator: BootInfoFrameAllocator::init(memory_regions),
            phys_mem_offset,
            memory_size,
        }
    }

    /// The physical address behind a virtual one, where its page is mapped.
    pub fn translate(&self, addr: u64) -> (phys: Option<u64>)
        ensures
            phys == translate(self.pages(), addr),
    {
        broadcast use vstd::std_specs::hash::group_hash_axioms;

        let page: u64 = addr - addr % PAGE_SIZE;
        match self.mapper.get(&page) {
            Some(entry) => {
                let offset: u64 = addr % PAGE_SIZE;
                if entry.frame <= u64::MAX - offset {
                    Some(entry.frame + offset)
                } else {
                    None
                }
            },
            None => None,
        }
    }

    /// The address at which the kernel sees a physical address through its
    /// linear window.
    pub fn phys_to_virt(&self, addr: u64) -> (virt: u64)
        requires
            addr + self.phys_mem_offset <= u64::MAX,
        ensures
            virt == addr + self.phys_mem_offset,
    {
        addr + self.phys_mem_offset
    }

    /// Maps the page of a physical address onto itself, with the default
    /// flags where none are given. Fails where the page is mapped already.
    pub fn identity_map(&mut self, physical_address: u64, flags: Option<u64>) -> (result: Result<
        (),
        MapError,
    >)
        ensures
            (final(self).pages(), result) == identity_mapped(
                old(self).pages(),
                physical_address,
                flags,
            ),
            final(self).allocator == old(self).allocator,
            final(self).phys_mem_offset == old(self).phys_mem_offset,
            final(self).memory_size == old(self).memory_size,
    {
        broadcast use vstd::std_specs::hash::group_hash_axioms;

        let flags: u64 = match flags {
            Some(f) => f,
            None => DEFAULT_FLAGS,
        };
        let page: u64 = physical_address - physical_address % PAGE_SIZE;
        if self.mapper.contains_key(&page) {
            Err(MapError::PageAlreadyMapped)
        } else {
            self.mapper.insert(page, PageEntry { frame: page, flags });
            Ok(())
        }
    }

    /// Maps every page that covers the `size` bytes from `start` on to a
    /// frame fresh from the memory map.
    pub fn range_map(&mut self, start: u64, size: u64, flags: Option<u64>) -> (result: Result<
        (),
        MapError,
    >)
        ensures
            final(self).phys_mem_offset == old(self).phys_mem_offset,
            final(self).memory_size == old(self).memory_size,
            final(self).allocator.memory_regions == old(self).allocator.memory_regions,
            (RangeOutcome {
                pages: final(self).pages(),
                next: final(self).allocator.next as int,
                result,
            }) == mapped(
                old(self).pages(),
                old(self).allocator.memory_regions@,
                old(self).allocator.next as int,
                start,
                size,
                flags,
            ),
    {
        map_pages(&mut self.mapper, &mut self.allocator, start, size, flags)
    }

    /// Removes the mapping of the page that holds `addr`.
    pub fn unmap(&mut self, addr: u64) -> (result: Result<(), UnmapError>)
        ensures
            (final(self).pages(), result) == unmapped(old(self).pages(), addr),
            final(self).allocator == old(self).allocator,
            final(self).phys_mem_offset == old(self).phys_mem_offset,
            final(self).memory_size == old(self).memory_size,
    {
        broadcast use vstd::std_specs::hash::group_hash_axioms;

        let page: u64 = addr - addr % PAGE_SIZE;
        if self.mapper.contains_key(&page) {
            self.mapper.remove(&page);
            Ok(())
        } else {
            Err(UnmapError::PageNotMapped)
        }
    }
}

/// Two page starts lie a whole number of pages apart.
proof fn lemma_aligned_distance(first: int, last: int)
    requires
        first % 4096 == 0,
        last % 4096 == 0,
        first <= last,
    ensures
        first + ((last - first) / 4096) * 4096 == last,
{
    assert((last - first) % 4096 == 0) by (nonlinear_arith)
        requires
            first % 4096 == 0,
            last % 4096 == 0,
    ;
    vstd::arithmetic::div_mod::lemma_fundamental_div_mod(last - first, 4096);
}


/// Sets up memory management over the firmware's memory map.
pub fn init(phys_mem_offset: u64, memory_regions: Vec<MemoryRegion>) -> (manager: MemoryManager)
    ensures
        manager.pages() == Pages::empty(),
        manager.allocator.memory_regions == memory_regions,
        manager.allocator.next == 0,
        manager.phys_mem_offset == phys_mem_offset,
        manager.memory_size == capped_size(memory_regions@),
{
    MemoryManager::new(phys_mem_offset, memory_regions)
}

/// The size of the memory that the firmware reported.
pub fn memory_size(manager: &MemoryManager) -> (size: u64)
    ensures
        size == manager.memory_size,
{
    manager.memory_size
}

pub fn phys_to_virt(manager: &MemoryManager, addr: u64) -> (virt: u64)
    requires
        addr + manager.phys_mem_offset <= u64::MAX,
    ensures
        virt == addr + manager.phys_mem_offset,
{
    manager.phys_to_virt(addr)
}

pub fn virt_to_phys(manager: &MemoryManager, addr: u64) -> (phys: Option<u64>)
    ensures
        phys == translate(manager.pages(), addr),
{
    manager.translate(addr)
}

pub fn identity_map(manager: &mut MemoryManager, physical_address: u64, flags: Option<u64>) -> (result:
    Result<(), MapError>)
    ensures
        (final(manager).pages(), result) == identity_mapped(
            old(manager).pages(),
            physical_address,
            flags,
        ),
        final(manager).allocator == old(manager).allocator,
        final(manager).phys_mem_offset == old(manager).phys_mem_offset,
        final(manager).memory_size == old(manager).memory_size,
{
    manager.identity_map(physical_address, flags)
}

pub fn range_map(manager: &mut MemoryManager, start: u64, size: u64, flags: Option<u64>) -> (result:
    Result<(), MapError>)
    ensures
        final(manager).phys_mem_offset == old(manager).phys_mem_offset,
        final(manager).memory_size == old(manager).memory_size,
        final(manager).allocator.memory_regions == old(manager).allocator.memory_regions,
        (RangeOutcome {
            pages: final(manager).pages(),
            next: final(manager).allocator.next as int,
            result,
        }) == mapped(
            old(manager).pages(),
            old(manager).allocator.memory_regions@,
            old(manager).allocator.next as int,
            start,
            size,
            flags,
        ),
{
    manager.range_map(start, size, flags)
}

pub fn unmap(manager: &mut MemoryManager, addr: u64) -> (result: Result<(), UnmapError>)
    ensures
        (final(manager).pages(), result) == unmapped(old(manager).pages(), addr),
        final(manager).allocator == old(manager).allocator,
        final(manager).phys_mem_offset == old(manager).phys_mem_offset,
        final(manager).memory_size == old(manager).memory_size,
{
    manager.unmap(addr)
}

/// The handle on the frame allocator.
pub fn frame_allocator(manager: &mut MemoryManager) -> (allocator: &mut BootInfoFrameAllocator)
    ensures
        *allocator == old(manager).allocator,
        *final(manager) == (MemoryManager { allocator: *final(allocator), ..*old(manager) }),
{
    &mut manager.allocator
}

/// The start of a page is translated to the frame that was installed for
/// it, and to nothing once the page is unmapped.
pub proof fn lemma_translate_follows_mapping(pages: Pages, page: u64, frame: u64, flags: u64)
    requires
        page % PAGE_SIZE == 0,
        map_to(pages, page, frame, flags).1 is Ok,
    ensures
        translate(map_to(pages, page, frame, flags).0, page) == Some(frame),
        unmapped(map_to(pages, page, frame, flags).0, page).1 is Ok,
        translate(unmapped(map_to(pages, page, frame, flags).0, page).0, page) is None,
{
}

/// Every mapped page translates to its frame.
pub proof fn lemma_translate_mapped(pages: Pages, page: u64)
    requires
        page % PAGE_SIZE == 0,
        pages.contains_key(page),
    ensures
        translate(pages, page) == Some(pages[page].frame),
        translate(unmapped(pages, page).0, page) is None,
{
}

/// Identity-mapping an address, unmapping its page and identity-mapping it
/// again succeeds, and the table is then what it was after the first
/// mapping.
pub proof fn lemma_identity_map_again(pages: Pages, physical_address: u64, flags: Option<u64>)
    requires
        identity_mapped(pages, physical_address, flags).1 is Ok,
    ensures
        ({
            let first = identity_mapped(pages, physical_address, flags).0;
            let without = unmapped(first, page_of(physical_address));
            let second = identity_mapped(without.0, physical_address, flags);
            &&& without.1 is Ok
            &&& second.1 is Ok
            &&& second.0 == first
        }),
{
    let first = identity_mapped(pages, physical_address, flags).0;
    let without = unmapped(first, page_of(physical_address));
    let second = identity_mapped(without.0, physical_address, flags);
    assert(page_of(page_of(physical_address)) == page_of(physical_address));
    assert(second.0 =~= first);
}

/// A range that starts on a page boundary and whose size is a whole number
/// of pages is covered by exactly that number of pages.
pub proof fn lemma_page_count_aligned(start: u64, size: u64)
    requires
        start % PAGE_SIZE == 0,
        size % PAGE_SIZE == 0,
    ensures
        page_count(start, size) == size / PAGE_SIZE,
{
    if size > 0 {
        let end = start + size - 1;
        assert(end % 4096 == 4095 && end - end % 4096 - start == size - 4096) by (nonlinear_arith)
            requires
                end == start + size - 1,
                start % 4096 == 0,
                size % 4096 == 0,
                size > 0,
        ;
        assert((size - 4096) / 4096 + 1 == size / 4096) by (nonlinear_arith)
            requires
                size % 4096 == 0,
                size > 0,
        ;
    }
}

/// Where mapping a run of pages succeeds, each page of the run is mapped
/// afterwards, every page mapped before still is, and the table has grown by
/// exactly the length of the run.
pub proof fn lemma_map_range_ok(
    pages: Pages,
    regions: Seq<MemoryRegion>,
    next: int,
    page: int,
    count: int,
    flags: u64,
)
    requires
        pages.dom().finite(),
        0 <= count,
        0 <= page,
        page + count * PAGE_SIZE <= u64::MAX + 1,
        map_range(pages, regions, next, page, count, flags).result is Ok,
    ensures
        ({
            let after = map_range(pages, regions, next, page, count, flags).pages;
            &&& after.dom().finite()
            &&& after.dom().len() == pages.dom().len() + count
            &&& forall|i: int|
                0 <= i < count ==> #[trigger] after.contains_key((page + i * PAGE_SIZE) as u64)
            &&& forall|p: u64| pages.contains_key(p) ==> #[trigger] after.contains_key(p)
        }),
    decreases count,
{
    if count > 0 {
        let frame = frame_at(regions, next).unwrap();
        let grown = pages.insert(page as u64, PageEntry { frame, flags });
        assert(page + (count - 1) * 4096 + 4096 == page + count * 4096) by (nonlinear_arith);
        lemma_map_range_ok(grown, regions, bump(next), page + PAGE_SIZE, count - 1, flags);
        let after = map_range(pages, regions, next, page, count, flags).pages;
        assert forall|i: int| 0 <= i < count implies #[trigger] after.contains_key(
            (page + i * PAGE_SIZE) as u64,
        ) by {
            if i > 0 {
                assert(page + PAGE_SIZE + (i - 1) * PAGE_SIZE == page + i * PAGE_SIZE)
                    by (nonlinear_arith);
                assert(after.contains_key((page + PAGE_SIZE + (i - 1) * PAGE_SIZE) as u64));
            } else {
                assert(grown.contains_key(page as u64));
            }
        }
    }
}


/// The start of page number `i` of a run of pages that starts at `page`.
pub open spec fn run_page(page: int, i: int) -> u64 {
    (page + i * PAGE_SIZE) as u64
}

/// The frame that page number `i` of a run gets, where `next` frames were
/// handed out before the run.
pub open spec fn run_frame(regions: Seq<MemoryRegion>, next: int, i: int) -> Option<u64> {
    frame_at(regions, next + i)
}

/// Whether a run of pages can be mapped: the memory map has a frame left
/// for each of its pages, and none of its pages is mapped.
pub open spec fn run_free(
    pages: Pages,
    regions: Seq<MemoryRegion>,
    next: int,
    page: int,
    count: int,
) -> bool {
    forall|i: int|
        0 <= i < count ==> (#[trigger] run_frame(regions, next, i)) is Some
            && !pages.contains_key(run_page(page, i))
}

/// Whether `after` is the table `pages` with a run of pages mapped: each
/// page of the run points to its own frame, the frames being taken in the
/// order of the pages from the next one of the memory map on; the pages that
/// were mapped before are as they were; and no other page is mapped, the
/// page behind the run among them.
pub open spec fn run_mapped(
    pages: Pages,
    after: Pages,
    regions: Seq<MemoryRegion>,
    next: int,
    page: int,
    count: int,
    flags: u64,
) -> bool {
    &&& forall|i: int|
        0 <= i < count ==> after.contains_key(#[trigger] run_page(page, i)) && after[run_page(
            page,
            i,
        )] == (PageEntry { frame: run_frame(regions, next, i).unwrap(), flags })
    &&& forall|p: u64|
        pages.contains_key(p) ==> #[trigger] after.contains_key(p) && after[p] == pages[p]
    &&& forall|p: u64| #[trigger]
        after.contains_key(p) ==> pages.contains_key(p) || in_run(page as u64, count, p)
}

/// Mapping a run of pages succeeds exactly where the memory map has a frame
/// left for each page and no page of the run is mapped. The table is then
/// the table before with the run mapped, and the count of frames handed out
/// has grown by the length of the run.
pub proof fn lemma_map_range_exact(
    pages: Pages,
    regions: Seq<MemoryRegion>,
    next: int,
    page: int,
    count: int,
    flags: u64,
)
    requires
        0 <= count,
        0 <= page,
        page % (PAGE_SIZE as int) == 0,
        page + count * PAGE_SIZE <= u64::MAX + 1,
        0 <= next,
        next + count <= usize::MAX,
    ensures
        map_range(pages, regions, next, page, count, flags).result is Ok <==> run_free(
            pages,
            regions,
            next,
            page,
            count,
        ),
        map_range(pages, regions, next, page, count, flags).result is Ok ==> map_range(
            pages,
            regions,
            next,
            page,
            count,
            flags,
        ).next == next + count && run_mapped(
            pages,
            map_range(pages, regions, next, page, count, flags).pages,
            regions,
            next,
            page,
            count,
            flags,
        ),
    decreases count,
{
    let after = map_range(pages, regions, next, page, count, flags);
    if count > 0 {
        assert(run_page(page, 0) == page as u64);
        assert(run_frame(regions, next, 0) == frame_at(regions, next));
        assert(page + (count - 1) * 4096 + 4096 == page + count * 4096) by (nonlinear_arith);
        assert(0 <= (count - 1) * 4096) by (nonlinear_arith)
            requires
                count >= 1,
        ;
        if frame_at(regions, next) is Some && !pages.contains_key(page as u64) {
            let frame = frame_at(regions, next).unwrap();
            let grown = pages.insert(page as u64, PageEntry { frame, flags });
            let page2 = page + PAGE_SIZE;
            let next2 = next + 1;
            lemma_map_range_exact(grown, regions, next2, page2, count - 1, flags);
            assert forall|i: int| 0 <= i < count - 1 implies #[trigger] run_page(page2, i)
                == run_page(page, i + 1) && run_page(page, i + 1) != page as u64 by {
                assert(page + 4096 + i * 4096 == page + (i + 1) * 4096) by (nonlinear_arith);
                assert(page + (i + 1) * 4096 <= page + (count - 1) * 4096) by (nonlinear_arith)
                    requires
                        i + 1 <= count - 1,
                ;
                assert((i + 1) * 4096 > 0) by (nonlinear_arith)
                    requires
                        i >= 0,
                ;
            }
            assert forall|i: int| 0 <= i < count - 1 implies #[trigger] run_frame(
                regions,
                next2,
                i,
            ) == run_frame(regions, next, i + 1) by {}
            if after.result is Ok {
                assert forall|i: int| 0 <= i < count implies (#[trigger] run_frame(
                    regions,
                    next,
                    i,
                )) is Some && !pages.contains_key(run_page(page, i)) by {
                    if i > 0 {
                        let j = i - 1;
                        assert(run_frame(regions, next2, j) is Some);
                        assert(run_page(page2, j) == run_page(page, j + 1));
                        assert(!grown.contains_key(run_page(page2, j)));
                    }
                }
                assert forall|i: int| 0 <= i < count implies after.pages.contains_key(
                    #[trigger] run_page(page, i),
                ) && after.pages[run_page(page, i)] == (PageEntry {
                    frame: run_frame(regions, next, i).unwrap(),
                    flags,
                }) by {
                    if i > 0 {
                        let j = i - 1;
                        assert(run_page(page2, j) == run_page(page, j + 1));
                        assert(run_frame(regions, next2, j) == run_frame(regions, next, j + 1));
                        assert(after.pages.contains_key(run_page(page2, j)));
                    } else {
                        assert(grown.contains_key(page as u64));
                        assert(after.pages.contains_key(page as u64));
                    }
                }
                assert forall|p: u64| #[trigger]
                    after.pages.contains_key(p) implies pages.contains_key(p) || in_run(
                    page as u64,
                    count,
                    p,
                ) by {
                    if !grown.contains_key(p) {
                        assert(in_run(page2 as u64, count - 1, p));
                    }
                }
                assert forall|p: u64| pages.contains_key(p) implies #[trigger]
                    after.pages.contains_key(p) && after.pages[p] == pages[p] by {
                    assert(grown.contains_key(p) && grown[p] == pages[p]);
                }
                assert(after.next == next + count);
                assert(run_free(pages, regions, next, page, count));
                assert(run_mapped(pages, after.pages, regions, next, page, count, flags));
            }
            if run_free(pages, regions, next, page, count) {
                assert forall|i: int| 0 <= i < count - 1 implies (#[trigger] run_frame(
                    regions,
                    next2,
                    i,
                )) is Some && !grown.contains_key(run_page(page2, i)) by {
                    assert(run_frame(regions, next, i + 1) is Some);
                    assert(run_page(page2, i) == run_page(page, i + 1));
                    assert(!pages.contains_key(run_page(page, i + 1)));
                }
                assert(run_free(grown, regions, next2, page2, count - 1));
                assert(after.result is Ok);
            }
        } else {
            assert(!run_free(pages, regions, next, page, count)) by {
                if run_free(pages, regions, next, page, count) {
                    assert(run_frame(regions, next, 0) is Some);
                }
            }
        }
    }
}


/// Mapping a range that starts on a page boundary and whose size is a whole
/// number of pages maps exactly that number of pages: it succeeds exactly
/// where a frame is left for each page and none of the pages is mapped, each
/// page then points to its own fresh frame, and the page behind the range is
/// not mapped by it.
pub proof fn lemma_range_map_aligned(
    pages: Pages,
    regions: Seq<MemoryRegion>,
    next: int,
    start: u64,
    size: u64,
    flags: Option<u64>,
)
    requires
        start % PAGE_SIZE == 0,
        size % PAGE_SIZE == 0,
        start + size <= u64::MAX + 1,
        0 <= next,
        next + size / PAGE_SIZE <= usize::MAX,
    ensures
        ({
            let count = (size / PAGE_SIZE) as int;
            let after = mapped(pages, regions, next, start, size, flags);
            &&& after.result is Ok <==> run_free(pages, regions, next, start as int, count)
            &&& after.result is Ok ==> after.next == next + count && run_mapped(
                pages,
                after.pages,
                regions,
                next,
                start as int,
                count,
                flags_or_default(flags),
            )
            &&& after.result is Ok && start + size <= u64::MAX && !pages.contains_key(
                (start + size) as u64,
            ) ==> !after.pages.contains_key((start + size) as u64)
        }),
{
    let count = (size / PAGE_SIZE) as int;
    lemma_page_count_aligned(start, size);
    assert(count * 4096 == size) by (nonlinear_arith)
        requires
            count == size / 4096,
            size % 4096 == 0,
    ;
    lemma_map_range_exact(pages, regions, next, start as int, count, flags_or_default(flags));
    let after = mapped(pages, regions, next, start, size, flags);
    if after.result is Ok && start + size <= u64::MAX {
        assert(!in_run(start, count, (start + size) as u64));
    }
}

} // verus!
