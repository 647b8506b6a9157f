use gate_os::allocator::{
    align_up, block_size, init_heap, list_index, Allocation, FixedSizeBlockAllocator, Release,
    HEAP_SIZE, HEAP_START,
};
use gate_os::mem::{init, MapError, MemoryRegion, MemoryRegionKind};

#[test]
fn align_up_gives_the_next_multiple() {
    assert_eq!(align_up(0, 8), 0);
    assert_eq!(align_up(1, 8), 8);
    assert_eq!(align_up(8, 8), 8);
    assert_eq!(align_up(4097, 4096), 8192);
    assert_eq!(align_up(13, 1), 13);
}

#[test]
fn block_sizes_double_from_eight() {
    let sizes: Vec<usize> = (0..9).map(block_size).collect();
    assert_eq!(sizes, vec![8, 16, 32, 64, 128, 256, 512, 1024, 2048]);
}

#[test]
fn a_request_of_2048_uses_the_largest_class_and_2049_none() {
    assert_eq!(list_index(2048, 8), Some(8));
    assert_eq!(list_index(2049, 8), None);
    assert_eq!(list_index(1, 1), Some(0));
    assert_eq!(list_index(8, 8), Some(0));
    assert_eq!(list_index(9, 8), Some(1));
    assert_eq!(list_index(4, 64), Some(3));
    assert_eq!(list_index(4, 4096), None);
    assert_eq!(list_index(0, 1), Some(0));
}

#[test]
fn an_empty_list_asks_the_fallback_for_a_block_of_the_class() {
    let mut heap = FixedSizeBlockAllocator::new(HEAP_START, HEAP_SIZE);
    assert_eq!(heap.allocate(24, 8), Allocation::Refill { size: 32, align: 32 });
    assert_eq!(heap.allocate(4000, 8), Allocation::Fallback { size: 4000, align: 8 });
}

#[test]
fn a_freed_block_is_handed_out_again_last_freed_first() {
    let mut heap = FixedSizeBlockAllocator::new(HEAP_START, HEAP_SIZE);
    let a = HEAP_START + 64;
    let b = HEAP_START + 128;
    assert_eq!(heap.deallocate(a, 40, 8), Release::Kept);
    assert_eq!(heap.deallocate(b, 64, 8), Release::Kept);
    assert_eq!(heap.list_heads[3], vec![a, b]);
    assert_eq!(heap.allocate(33, 16), Allocation::Block(b));
    assert_eq!(heap.allocate(64, 64), Allocation::Block(a));
    assert_eq!(heap.allocate(64, 64), Allocation::Refill { size: 64, align: 64 });
}

#[test]
fn handed_out_blocks_are_aligned_and_inside_the_heap() {
    let mut heap = FixedSizeBlockAllocator::new(HEAP_START, HEAP_SIZE);
    for i in 0..10u64 {
        assert_eq!(heap.deallocate(HEAP_START + i * 2048, 2048, 2048), Release::Kept);
    }
    for align in [1usize, 2, 8, 256, 2048] {
        match heap.allocate(1500, align) {
            Allocation::Block(ptr) => {
                assert_eq!(ptr % align as u64, 0);
                assert!(HEAP_START <= ptr && ptr < HEAP_START + HEAP_SIZE);
            }
            other => panic!("no block: {:?}", other),
        }
    }
}

#[test]
fn memory_that_is_no_block_of_its_class_is_refused() {
    let mut heap = FixedSizeBlockAllocator::new(HEAP_START, HEAP_SIZE);
    assert_eq!(heap.deallocate(HEAP_START + 8, 16, 8), Release::Refused);
    assert_eq!(heap.deallocate(HEAP_START - 16, 16, 8), Release::Refused);
    assert_eq!(heap.deallocate(HEAP_START + HEAP_SIZE, 16, 8), Release::Refused);
    assert_eq!(heap.deallocate(HEAP_START + HEAP_SIZE - 16, 16, 8), Release::Kept);
    assert_eq!(
        heap.deallocate(HEAP_START, 4096, 8),
        Release::Fallback { ptr: HEAP_START, size: 4096, align: 8 }
    );
}

#[test]
fn init_heap_maps_the_heap() {
    let regions =
        vec![MemoryRegion { start: 0x100000, end: 0x200000, kind: MemoryRegionKind::Usable }];
    let mut manager = init(0, regions);
    let heap = init_heap(&mut manager).expect("there are frames enough");
    assert_eq!(heap.heap_start, HEAP_START);
    assert_eq!(heap.heap_size, HEAP_SIZE);
    assert_eq!(manager.mapper.len(), 25);
    assert_eq!(manager.mapper.get(&HEAP_START).map(|e| e.flags), Some(3));
    assert!(heap.list_heads.iter().all(|list| list.is_empty()));
}

#[test]
fn init_heap_fails_without_frames() {
    let regions =
        vec![MemoryRegion { start: 0x100000, end: 0x104000, kind: MemoryRegionKind::Usable }];
    let mut manager = init(0, regions);
    assert_eq!(init_heap(&mut manager).err(), Some(MapError::FrameAllocationFailed));
    assert_eq!(manager.mapper.len(), 4);
}
