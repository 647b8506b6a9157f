//! The kernel heap: free lists of blocks in nine sizes over one stretch of
//! virtual memory, with larger requests and empty lists handed on to a
//! fallback allocator.

use vstd::prelude::*;
use crate::mem::{mapped, range_map, MapError, MemoryManager, RangeOutcome};

verus! {

/// Where the kernel heap starts.
pub const HEAP_START: u64 = 0x4444_4444_0000;

/// How many bytes the kernel heap has.
pub const HEAP_SIZE: u64 = 100 * 1024;

/// How many block sizes there are.
pub const BLOCK_CLASSES: usize = 9;

/// The largest block size.
pub const MAX_BLOCK_SIZE: usize = 2048;

pub open spec fn is_power_of_two(n: u64) -> bool {
    n != 0 && n & ((n - 1) as u64) == 0
}

/// The least multiple of `align` that is not below `addr`.
pub fn align_up(addr: u64, align: u64) -> (aligned: u64)
    requires
        align > 0,
        addr + align - 1 <= u64::MAX,
    ensures
        aligned % align == 0,
        addr <= aligned < addr + align,
{
    let over: u64 = addr % align;
    if over == 0 {
        addr
    } else {
        let aligned: u64 = addr + (align - over);
        assert(aligned % align == 0) by (nonlinear_arith)
            requires
                aligned == addr + (align - over),
                over == addr % align,
                align > 0,
        ;
        aligned
    }
}

/// The size of the blocks of a class: 8 bytes in class 0, twice as many in
/// each class after it.
pub open spec fn spec_block_size(index: int) -> int {
    if index == 0 {
        8
    } else if index == 1 {
        16
    } else if index == 2 {
        32
    } else if index == 3 {
        64
    } else if index == 4 {
        128
    } else if index == 5 {
        256
    } else if index == 6 {
        512
    } else if index == 7 {
        1024
    } else {
        2048
    }
}

pub fn block_size(index: usize) -> (size: usize)
    requires
        index < BLOCK_CLASSES,
    ensures
        size == spec_block_size(index as int),
{
    match index {
        0 => 8,
        1 => 16,
        2 => 32,
        3 => 64,
        4 => 128,
        5 => 256,
        6 => 512,
        7 => 1024,
        _ => 2048,
    }
}

/// What a block must hold for a request: its size, and its alignment where
/// that is larger.
pub open spec fn required_size(size: usize, align: usize) -> int {
    if size >= align {
        size as int
    } else {
        align as int
    }
}

/// The class that serves a request: the smallest whose blocks are large
/// enough, and none where the request is beyond the largest block.
pub open spec fn spec_list_index(size: usize, align: usize) -> Option<usize> {
    let required = required_size(size, align);
    if required <= 8 {
        Some(0usize)
    } else if required <= 16 {
        Some(1usize)
    } else if required <= 32 {
        Some(2usize)
    } else if required <= 64 {
        Some(3usize)
    } else if required <= 128 {
        Some(4usize)
    } else if required <= 256 {
        Some(5usize)
    } else if required <= 512 {
        Some(6usize)
    } else if required <= 1024 {
        Some(7usize)
    } else if required <= 2048 {
        Some(8usize)
    } else {
        None
    }
}

/// The class that serves a request.
pub fn list_index(size: usize, align: usize) -> (index: Option<usize>)
    ensures
        index is Some <==> required_size(size, align) <= MAX_BLOCK_SIZE,
        index is Some ==> index.unwrap() < BLOCK_CLASSES && spec_block_size(
            index.unwrap() as int,
        ) >= required_size(size, align) && (index.unwrap() == 0 || spec_block_size(
            index.unwrap() - 1,
        ) < required_size(size, align)),
        index == spec_list_index(size, align),
{
    let required: usize = if size >= align {
        size
    } else {
        align
    };
    let mut i: usize = 0;
    while i < BLOCK_CLASSES
        invariant
            i <= BLOCK_CLASSES,
            required == required_size(size, align),
            i == 0 || spec_block_size(i - 1) < required,
        decreases BLOCK_CLASSES - i,
    {
        if block_size(i) >= required {
            return Some(i);
        }
        i = i + 1;
    }
    None
}

/// A request of 2048 bytes is served from the largest class, one of 2049
/// bytes from none.
pub proof fn lemma_largest_class(align: usize)
    requires
        align <= MAX_BLOCK_SIZE,
    ensures
        spec_list_index(2048, align) == Some(8usize),
        spec_list_index(2049, align) is None,
{
}

/// What the heap does with a request for memory.
#[derive(Clone, Copy, Debug, PartialEq, Eq, Structural)]
pub enum Allocation {
    /// A block was taken from its free list.
    Block(u64),
    /// The free list of the class is empty: the fallback allocator is to
    /// give a block of the class's size, aligned to that size.
    Refill { size: usize, align: usize },
    /// The request is too large for any class: the fallback allocator is to
    /// serve it as it stands.
    Fallback { size: usize, align: usize },
}

/// What the heap does with memory that is given back.
#[derive(Clone, Copy, Debug, PartialEq, Eq, Structural)]
pub enum Release {
    /// The block went onto its free list.
    Kept,
    /// The memory belongs to the fallback allocator.
    Fallback { ptr: u64, size: usize, align: usize },
    /// The address is no block of its class inside the heap.
    Refused,
}

/// Free lists of blocks, one list for each class.
pub struct FixedSizeBlockAllocator {
    pub list_heads: Vec<Vec<u64>>,
    pub heap_start: u64,
    pub heap_size: u64,
}

impl FixedSizeBlockAllocator {
    /// Whether `ptr` can be a block of class `index`: aligned to the class's
    /// size and wholly inside the heap.
    pub open spec fn is_block(&self, index: int, ptr: u64) -> bool {
        &&& ptr as int % spec_block_size(index) == 0
        &&& self.heap_start <= ptr
        &&& ptr + spec_block_size(index) <= self.heap_start + self.heap_size
    }

    /// There is one list for each class, and every address on a list is a
    /// block of that list's class.
    pub open spec fn wf(&self) -> bool {
        &&& self.list_heads@.len() == BLOCK_CLASSES
        &&& self.heap_start + self.heap_size <= u64::MAX
        &&& forall|i: int, j: int|
            0 <= i < BLOCK_CLASSES && 0 <= j < self.list_heads@[i]@.len() ==> self.is_block(
                i,
                #[trigger] self.list_heads@[i]@[j],
            )
    }

    /// The free list of a class, the block that was freed last at its end.
    pub open spec fn list(&self, index: int) -> Seq<u64> {
        self.list_heads@[index]@
    }

    /// A heap over `heap_size` bytes from `heap_start` on, with every free
    /// list empty. Where the stretch would pass the end of the address space,
    /// it is cut off there.
    pub fn new(heap_start: u64, heap_size: u64) -> (heap: Self)
        ensures
            heap.wf(),
            heap.heap_start == heap_start,
            heap.heap_size == if heap_start + heap_size <= u64::MAX {
                heap_size
            } else {
                (u64::MAX - heap_start) as u64
            },
            forall|i: int| 0 <= i < BLOCK_CLASSES ==> heap.list(i) == Seq::<u64>::empty(),
    {
        let mut list_heads: Vec<Vec<u64>> = Vec::new();
        let mut i: usize = 0;
        while i < BLOCK_CLASSES
            invariant
                i <= BLOCK_CLASSES,
                list_heads@.len() == i,
                forall|k: int| 0 <= k < i ==> #[trigger] list_heads@[k]@ == Seq::<u64>::empty(),
            decreases BLOCK_CLASSES - i,
        {
            list_heads.push(Vec::new());
            i = i + 1;
        }
        let heap_size: u64 = if heap_size <= u64::MAX - heap_start {
            heap_size
        } else {
            u64::MAX - heap_start
        };
        FixedSizeBlockAllocator { list_heads, heap_start, heap_size }
    }

    /// Serves a request for `size` bytes aligned to `align`. A request that
    /// fits a class takes the block that was freed last in that class; where
    /// the class has none, or the request fits no class, the fallback
    /// allocator is named. A block that is handed out is aligned as asked and
    /// lies inside the heap.
    pub fn allocate(&mut self, size: usize, align: usize) -> (allocation: Allocation)
        requires
            old(self).wf(),
            is_power_of_two(align as u64),
        ensures
            final(self).wf(),
            final(self).heap_start == old(self).heap_start,
            final(self).heap_size == old(self).heap_size,
            match spec_list_index(size, align) {
                None => allocation == (Allocation::Fallback { size, align })
                    && final(self).list_heads == old(self).list_heads,
                Some(index) => if old(self).list(index as int).len() == 0 {
                    allocation == (Allocation::Refill {
                        size: spec_block_size(index as int) as usize,
                        align: spec_block_size(index as int) as usize,
                    }) && final(self).list_heads == old(self).list_heads
                } else {
                    &&& allocation == Allocation::Block(old(self).list(index as int).last())
                    &&& final(self).list(index as int) == old(self).list(index as int).drop_last()
                    &&& forall|i: int|
                        0 <= i < BLOCK_CLASSES && i != index ==> final(self).list(i)
                            == old(self).list(i)
                },
            },
            allocation matches Allocation::Block(ptr) ==> ptr % (align as u64) == 0
                && final(self).heap_start <= ptr < final(self).heap_start + final(self).heap_size,
    {
        match list_index(size, align) {
            None => Allocation::Fallback { size, align },
            Some(index) => {
                let bytes: usize = block_size(index);
                if self.list_heads[index].len() == 0 {
                    Allocation::Refill { size: bytes, align: bytes }
                } else {
                    let ghost before = self.list_heads@;
                    let ptr: u64 = self.list_heads[index].pop().unwrap();
                    proof {
                        assert(old(self).is_block(index as int, ptr));
                        lemma_block_alignment(ptr, index as int, align as u64);
                        assert forall|i: int, j: int|
                            0 <= i < BLOCK_CLASSES && 0 <= j
                                < self.list_heads@[i]@.len() implies self.is_block(
                            i,
                            #[trigger] self.list_heads@[i]@[j],
                        ) by {
                            assert(old(self).is_block(i, old(self).list_heads@[i]@[j]));
                        }
                    }
                    Allocation::Block(ptr)
                }
            },
        }
    }

    /// Takes back memory that was handed out for `size` bytes aligned to
    /// `align`. A block of a class goes onto the class's free list; memory of
    /// a request beyond every class goes back to the fallback allocator; an
    /// address that is no block of its class inside the heap is refused.
    pub fn deallocate(&mut self, ptr: u64, size: usize, align: usize) -> (release: Release)
        requires
            old(self).wf(),
        ensures
            final(self).wf(),
            final(self).heap_start == old(self).heap_start,
            final(self).heap_size == old(self).heap_size,
            match spec_list_index(size, align) {
                None => release == (Release::Fallback { ptr, size, align })
                    && final(self).list_heads == old(self).list_heads,
                Some(index) => if old(self).is_block(index as int, ptr) {
                    &&& release == Release::Kept
                    &&& final(self).list(index as int) == old(self).list(index as int).push(ptr)
                    &&& forall|i: int|
                        0 <= i < BLOCK_CLASSES && i != index ==> final(self).list(i)
                            == old(self).list(i)
                } else {
                    release == Release::Refused && final(self).list_heads == old(self).list_heads
                },
            },
    {
        match list_index(size, align) {
            None => Release::Fallback { ptr, size, align },
            Some(index) => {
                let bytes: u64 = block_size(index) as u64;
                if ptr % bytes == 0 && self.heap_start <= ptr && ptr - self.heap_start
                    <= self.heap_size && bytes <= self.heap_size - (ptr - self.heap_start) {
                    self.list_heads[index].push(ptr);
                    proof {
                        assert forall|i: int, j: int|
                            0 <= i < BLOCK_CLASSES && 0 <= j
                                < self.list_heads@[i]@.len() implies self.is_block(
                            i,
                            #[trigger] self.list_heads@[i]@[j],
                        ) by {
                            if i == index && j == old(self).list_heads@[i]@.len() {
                            } else {
                                assert(old(self).is_block(i, old(self).list_heads@[i]@[j]));
                            }
                        }
                    }
                    Release::Kept
                } else {
                    Release::Refused
                }
            },
        }
    }
}

/// A block of a class is aligned to every power of two up to the class's
/// size.
proof fn lemma_block_alignment(ptr: u64, index: int, align: u64)
    requires
        0 <= index < BLOCK_CLASSES,
        ptr as int % spec_block_size(index) == 0,
        is_power_of_two(align),
        align <= spec_block_size(index),
    ensures
        ptr % align == 0,
{
    let bytes = spec_block_size(index);
    assert(align == 1 || align == 2 || align == 4 || align == 8 || align == 16 || align == 32
        || align == 64 || align == 128 || align == 256 || align == 512 || align == 1024 || align
        == 2048) by (bit_vector)
        requires
            align != 0 && align & ((align - 1) as u64) == 0,
            align <= 2048,
    ;
    let size = bytes as u64;
    assert(size % align == 0 && size / align > 0) by (bit_vector)
        requires
            size == 8 || size == 16 || size == 32 || size == 64 || size == 128 || size == 256
                || size == 512 || size == 1024 || size == 2048,
            align == 1 || align == 2 || align == 4 || align == 8 || align == 16 || align == 32
                || align == 64 || align == 128 || align == 256 || align == 512 || align == 1024
                || align == 2048,
            align <= size,
    ;
    let factor = bytes / (align as int);
    assert(bytes == align * factor && factor > 0) by {
        vstd::arithmetic::div_mod::lemma_fundamental_div_mod(bytes, align as int);
    }
    vstd::arithmetic::div_mod::lemma_mod_mod(ptr as int, align as int, factor);
    assert(0int % (align as int) == 0);
}


/// The flags of the heap's pages: present and writable.
pub const HEAP_FLAGS: u64 = 0x3;

/// Maps the pages of the kernel heap and sets the heap up over them, with
/// every free list empty. Fails where a page cannot be mapped; the pages
/// mapped up to there stay mapped.
pub fn init_heap(manager: &mut MemoryManager) -> (result: Result<FixedSizeBlockAllocator, MapError>)
    ensures
        final(manager).phys_mem_offset == old(manager).phys_mem_offset,
        final(manager).memory_size == old(manager).memory_size,
        final(manager).allocator.memory_regions == old(manager).allocator.memory_regions,
        ({
            let outcome = mapped(
                old(manager).pages(),
                old(manager).allocator.memory_regions@,
                old(manager).allocator.next as int,
                HEAP_START,
                HEAP_SIZE,
                Some(HEAP_FLAGS),
            );
            &&& final(manager).pages() == outcome.pages
            &&& final(manager).allocator.next == outcome.next
            &&& result is Ok == outcome.result is Ok
            &&& result matches Err(e) ==> outcome.result == Err::<(), MapError>(e)
        }),
        result matches Ok(heap) ==> heap.wf() && heap.heap_start == HEAP_START && heap.heap_size
            == HEAP_SIZE && forall|i: int|
            0 <= i < BLOCK_CLASSES ==> heap.list(i) == Seq::<u64>::empty(),
{
    match range_map(manager, HEAP_START, HEAP_SIZE, Some(HEAP_FLAGS)) {
        Ok(()) => Ok(FixedSizeBlockAllocator::new(HEAP_START, HEAP_SIZE)),
        Err(e) => Err(e),
    }
}

} // verus!
