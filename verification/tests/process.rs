use gate_os::fs::{Device, File, Resource};
use gate_os::mem::{init, MemoryManager, MemoryRegion, MemoryRegionKind, PageEntry};
use gate_os::process::{
    binary_kind, code_addr, create_handle, delete_handle, dir, exit, handle, handles, id,
    init_process_addr, layout_args, load, page_table_frame, place_segments, ptr_from_addr,
    registers, set_code_addr, set_dir, set_id, set_registers, set_stack_frame, stack_frame,
    update_handle, BinaryKind, ElfImage, ElfSegment, ExitCode, Process, ProcessData, ProcessTable,
    Registers, StackFrame, UserSelectors, MAX_HANDLES, MAX_PROCS, MAX_PROC_SIZE, USER_FLAGS,
};

const FLAT: [u8; 10] = [0x7F, 0x42, 0x49, 0x4E, 0xB8, 0x2A, 0x00, 0x00, 0x00, 0xC3];

fn memory() -> MemoryManager {
    init(
        0,
        vec![
            MemoryRegion { start: 0, end: 0x100000, kind: MemoryRegionKind::Reserved },
            MemoryRegion { start: 0x100000, end: 0x10000000, kind: MemoryRegionKind::Usable },
        ],
    )
}

fn selectors() -> UserSelectors {
    UserSelectors { code: 0x2B, data: 0x33 }
}

fn is_console(slot: &Option<Resource>) -> bool {
    matches!(slot, Some(Resource::Device(Device::Console)))
}

fn minimal_elf(entry: u64, vaddr: u64, payload: &[u8]) -> Vec<u8> {
    let mut elf = vec![0x7F, b'E', b'L', b'F', 2, 1, 1, 0, 0, 0, 0, 0, 0, 0, 0, 0];
    elf.extend_from_slice(&2u16.to_le_bytes());
    elf.extend_from_slice(&0x3Eu16.to_le_bytes());
    elf.extend_from_slice(&1u32.to_le_bytes());
    elf.extend_from_slice(&entry.to_le_bytes());
    elf.extend_from_slice(&64u64.to_le_bytes());
    elf.extend_from_slice(&0u64.to_le_bytes());
    elf.extend_from_slice(&0u32.to_le_bytes());
    elf.extend_from_slice(&64u16.to_le_bytes());
    elf.extend_from_slice(&56u16.to_le_bytes());
    elf.extend_from_slice(&1u16.to_le_bytes());
    elf.extend_from_slice(&64u16.to_le_bytes());
    elf.extend_from_slice(&0u16.to_le_bytes());
    elf.extend_from_slice(&0u16.to_le_bytes());
    assert_eq!(elf.len(), 64);
    elf.extend_from_slice(&1u32.to_le_bytes());
    elf.extend_from_slice(&5u32.to_le_bytes());
    elf.extend_from_slice(&120u64.to_le_bytes());
    elf.extend_from_slice(&vaddr.to_le_bytes());
    elf.extend_from_slice(&vaddr.to_le_bytes());
    elf.extend_from_slice(&(payload.len() as u64).to_le_bytes());
    elf.extend_from_slice(&(payload.len() as u64).to_le_bytes());
    elf.extend_from_slice(&0x1000u64.to_le_bytes());
    assert_eq!(elf.len(), 120);
    elf.extend_from_slice(payload);
    elf
}

#[test]
fn exit_codes_and_their_numbers() {
    let all = [
        (ExitCode::Success, 0),
        (ExitCode::Failure, 1),
        (ExitCode::UsageError, 64),
        (ExitCode::DataError, 65),
        (ExitCode::OpenError, 128),
        (ExitCode::ReadError, 129),
        (ExitCode::ExecError, 130),
        (ExitCode::PageFaultError, 200),
        (ExitCode::ShellExit, 255),
    ];
    for (exit, code) in all {
        assert_eq!(exit.code(), code);
        assert_eq!(ExitCode::from_code(code), exit);
    }
    assert_eq!(ExitCode::from_code(42), ExitCode::Other(42));
    assert_eq!(ExitCode::Other(42).code(), 42);
    assert_eq!(ExitCode::from_code(0x1_0000_0040), ExitCode::UsageError);
}

#[test]
fn fresh_process_data_has_the_standard_handles() {
    let data = ProcessData::new("/usr");
    assert_eq!(data.dir, "/usr");
    assert_eq!(data.handles.len(), MAX_HANDLES);
    assert!(is_console(&data.handles[0]));
    assert!(is_console(&data.handles[1]));
    assert!(is_console(&data.handles[2]));
    assert!(matches!(data.handles[3], Some(Resource::Device(Device::Null))));
    assert!(data.handles[4..].iter().all(|slot| slot.is_none()));
}

#[test]
fn a_fresh_table_runs_the_kernel_alone() {
    let table = ProcessTable::new(0x5000);
    assert_eq!(table.procs.len(), MAX_PROCS);
    assert_eq!(id(&table), 0);
    assert_eq!(table.max_pid, 1);
    assert_eq!(dir(&table), "/");
    assert_eq!(page_table_frame(&table), 0x5000);
    assert_eq!(code_addr(&table), 0);
    assert_eq!(registers(&table), Registers::default());
}

#[test]
fn working_directory_is_set() {
    let mut table = ProcessTable::new(0);
    set_dir(&mut table, "/tmp");
    assert_eq!(dir(&table), "/tmp");
}

#[test]
fn handles_are_given_from_four_upwards() {
    let mut table = ProcessTable::new(0);
    assert_eq!(create_handle(&mut table, Resource::Device(Device::Null)), Ok(4));
    assert_eq!(create_handle(&mut table, Resource::File(File::new(vec![1, 2]))), Ok(5));
    delete_handle(&mut table, 4);
    assert!(handle(&table, 4).is_none());
    assert_eq!(create_handle(&mut table, Resource::Device(Device::Console)), Ok(4));
    assert!(is_console(&handle(&table, 4)));
    match handle(&table, 5) {
        Some(Resource::File(file)) => assert_eq!(file.data, vec![1, 2]),
        other => panic!("no file: {:?}", other),
    }
}

#[test]
fn create_handle_fails_when_every_slot_is_taken() {
    let mut table = ProcessTable::new(0);
    for expected in 4..MAX_HANDLES {
        assert_eq!(create_handle(&mut table, Resource::Device(Device::Null)), Ok(expected));
    }
    assert_eq!(create_handle(&mut table, Resource::Device(Device::Null)), Err(()));
    let all = handles(&table);
    assert_eq!(all.len(), MAX_HANDLES);
    assert!(all.iter().all(|slot| slot.is_some()));
}

#[test]
fn update_handle_overwrites() {
    let mut table = ProcessTable::new(0);
    update_handle(&mut table, 1, Resource::Device(Device::Null));
    assert!(matches!(handle(&table, 1), Some(Resource::Device(Device::Null))));
    update_handle(&mut table, 63, Resource::Device(Device::Console));
    assert!(is_console(&handle(&table, 63)));
}

#[test]
fn addresses_below_the_code_base_are_rebased() {
    let mut table = ProcessTable::new(0);
    set_code_addr(&mut table, 0x40_0000);
    assert_eq!(code_addr(&table), 0x40_0000);
    assert_eq!(ptr_from_addr(&table, 0x1000), 0x40_1000);
    assert_eq!(ptr_from_addr(&table, 0x40_0000), 0x40_0000);
    assert_eq!(ptr_from_addr(&table, 0x50_0000), 0x50_0000);
}

#[test]
fn saved_context_is_kept() {
    let mut table = ProcessTable::new(0);
    let regs = Registers { r11: 1, r10: 2, r9: 3, r8: 4, rdi: 5, rsi: 6, rdx: 7, rcx: 8, rax: 9 };
    let frame = StackFrame {
        instruction_pointer: 0x1234,
        code_segment: 8,
        cpu_flags: 0x202,
        stack_pointer: 0x8000,
        stack_segment: 16,
    };
    set_registers(&mut table, regs);
    set_stack_frame(&mut table, frame);
    assert_eq!(registers(&table), regs);
    assert_eq!(stack_frame(&table), frame);
}

#[test]
fn the_format_is_told_by_the_magic() {
    assert_eq!(binary_kind(&FLAT), BinaryKind::Flat);
    assert_eq!(binary_kind(&[0x7F, b'E', b'L', b'F']), BinaryKind::Elf);
    assert_eq!(binary_kind(&[0x7F, b'E', b'L']), BinaryKind::Unknown);
    assert_eq!(binary_kind(&[]), BinaryKind::Unknown);
    assert_eq!(binary_kind(b"#!/bin/sh"), BinaryKind::Unknown);
}

#[test]
fn a_flat_binary_is_loaded_without_its_magic() {
    let binary = load(&FLAT, 0x80_0000).expect("a flat binary");
    assert_eq!(binary.entry, 0);
    assert!(!binary.remap);
    assert_eq!(binary.segments.len(), 1);
    assert_eq!(binary.segments[0].addr, 0x80_0000);
    assert_eq!(binary.segments[0].data, vec![0xB8, 0x2A, 0x00, 0x00, 0x00, 0xC3]);
    assert!(load(b"nope", 0).is_none());
}

#[test]
fn an_elf_object_is_loaded_by_its_segments() {
    let elf = minimal_elf(0x1000, 0x1000, &[0x90, 0x90, 0xCD, 0x80]);
    let binary = load(&elf, 0x80_0000).expect("an ELF object");
    assert_eq!(binary.entry, 0x1000);
    assert!(binary.remap);
    assert_eq!(binary.segments.len(), 1);
    assert_eq!(binary.segments[0].addr, 0x80_1000);
    assert_eq!(binary.segments[0].data, vec![0x90, 0x90, 0xCD, 0x80]);
}

#[test]
fn an_unreadable_elf_object_loads_nothing() {
    let binary = load(&[0x7F, b'E', b'L', b'F', 9, 9, 9, 9], 0x80_0000).expect("ELF by magic");
    assert_eq!(binary.entry, 0);
    assert!(!binary.remap);
    assert!(binary.segments.is_empty());
}

#[test]
fn segments_are_placed_from_the_base() {
    let image = ElfImage {
        entry: 8,
        segments: vec![
            ElfSegment { address: 0x10, data: Some(vec![1]) },
            ElfSegment { address: 0x20, data: None },
            ElfSegment { address: u64::MAX, data: Some(vec![2]) },
            ElfSegment { address: 0x30, data: Some(vec![3, 4]) },
        ],
    };
    let placed = place_segments(image, 0x1000);
    let got: Vec<(u64, Vec<u8>)> = placed.into_iter().map(|s| (s.addr, s.data)).collect();
    assert_eq!(got, vec![(0x1010, vec![1]), (0x1030, vec![3, 4])]);
}

#[test]
fn a_process_is_created_from_a_flat_binary() {
    let mut table = ProcessTable::new(0x5000);
    let mut manager = memory();
    init_process_addr(&mut table, 0x100_0000);
    set_dir(&mut table, "/bin");
    let regs = Registers { rax: 8, ..Registers::default() };
    set_registers(&mut table, regs);
    assert_eq!(Process::create(&mut table, &mut manager, &FLAT), Ok(1));
    assert_eq!(id(&table), 0);
    assert_eq!(table.max_pid, 2);
    assert_eq!(table.next_code_addr, 0x100_0000 + MAX_PROC_SIZE);
    let child = &table.procs[1];
    assert_eq!(child.id, 1);
    assert_eq!(child.parent_id, 0);
    assert_eq!(child.code_addr, 0x100_0000);
    assert_eq!(child.stack_addr, 0x100_0000 + MAX_PROC_SIZE - 4096);
    assert_eq!(child.entry_point_addr, 0);
    assert_eq!(child.page_table_frame, 0x100000);
    assert_eq!(child.registers, regs);
    assert_eq!(child.data.dir, "/bin");
    assert!(is_console(&child.data.handles[1]));
    assert_eq!(child.image.len(), 1);
    assert_eq!(child.image[0].addr, 0x100_0000);
    assert_eq!(child.image[0].data, FLAT[4..].to_vec());
    assert_eq!(
        child.space.get(&0x100_0000),
        Some(&PageEntry { frame: 0x101000, flags: USER_FLAGS })
    );
    assert_eq!(child.space.len(), 1);
    assert_eq!(manager.allocator.next, 2);
    assert!(manager.mapper.is_empty());
}

#[test]
fn a_process_is_created_from_an_elf_object() {
    let mut table = ProcessTable::new(0);
    let mut manager = memory();
    init_process_addr(&mut table, 0x100_0000);
    let elf = minimal_elf(0x2000, 0x2000, &[0xC3]);
    assert_eq!(Process::create(&mut table, &mut manager, &elf), Ok(1));
    let child = &table.procs[1];
    assert_eq!(child.entry_point_addr, 0x2000);
    assert_eq!(child.image[0].addr, 0x100_2000);
    assert_eq!(child.image[0].data, vec![0xC3]);
    assert!(child.space.contains_key(&0x100_0000));
    assert!(child.space.contains_key(&0x100_2000));
    assert_eq!(child.space.len(), 2);
}

#[test]
fn the_child_shares_the_kernel_mappings() {
    let mut table = ProcessTable::new(0);
    let mut manager = memory();
    init_process_addr(&mut table, 0x100_0000);
    gate_os::mem::identity_map(&mut manager, 0xFEE0_0000, None).unwrap();
    assert_eq!(Process::create(&mut table, &mut manager, &FLAT), Ok(1));
    assert!(table.procs[1].space.contains_key(&0xFEE0_0000));
}

#[test]
fn an_unknown_program_is_not_created() {
    let mut table = ProcessTable::new(0);
    let mut manager = memory();
    init_process_addr(&mut table, 0x100_0000);
    assert_eq!(Process::create(&mut table, &mut manager, b"hello world"), Err(()));
    assert_eq!(table.max_pid, 1);
    // the stretch of memory and the frames are taken all the same
    assert_eq!(table.next_code_addr, 0x100_0000 + MAX_PROC_SIZE);
    assert_eq!(manager.allocator.next, 2);
}

#[test]
fn a_full_table_takes_no_process() {
    let mut table = ProcessTable::new(0);
    let mut manager = memory();
    init_process_addr(&mut table, 0x100_0000);
    for expected in 1..MAX_PROCS {
        assert_eq!(Process::create(&mut table, &mut manager, &FLAT), Ok(expected));
    }
    let frames = manager.allocator.next;
    let next = table.next_code_addr;
    assert_eq!(Process::create(&mut table, &mut manager, &FLAT), Err(()));
    assert_eq!(table.max_pid, MAX_PROCS);
    assert_eq!(manager.allocator.next, frames);
    assert_eq!(table.next_code_addr, next);
    assert_eq!(
        Process::spawn(&mut table, &mut manager, &FLAT, &Vec::new(), selectors()).err(),
        Some(ExitCode::ExecError)
    );
}

#[test]
fn no_process_without_a_frame_for_its_page_table() {
    let mut table = ProcessTable::new(0);
    let mut manager = init(0, Vec::new());
    init_process_addr(&mut table, 0x100_0000);
    assert_eq!(Process::create(&mut table, &mut manager, &FLAT), Err(()));
    assert_eq!(table.next_code_addr, 0x100_0000);
    assert_eq!(manager.allocator.next, 1);
}

#[test]
fn arguments_are_laid_out_one_after_the_other() {
    let args = vec![b"ls".to_vec(), Vec::new(), b"-la".to_vec()];
    let (copies, descriptors, end) = layout_args(&args, 0x1000, 0x2000).expect("they fit");
    assert_eq!(end, 0x1005);
    assert_eq!(descriptors, vec![(0x1000, 2), (0x1002, 0), (0x1002, 3)]);
    let got: Vec<(u64, Vec<u8>)> = copies.into_iter().map(|s| (s.addr, s.data)).collect();
    assert_eq!(
        got,
        vec![(0x1000, b"ls".to_vec()), (0x1002, Vec::new()), (0x1002, b"-la".to_vec())]
    );
    assert!(layout_args(&args, 0x1000, 0x1004).is_none());
    assert!(layout_args(&args, 0x1000, 0x1005).is_some());
}

#[test]
fn spawn_enters_the_child() {
    let mut table = ProcessTable::new(0x5000);
    let mut manager = memory();
    init_process_addr(&mut table, 0x100_0000);
    let args = vec![b"prog".to_vec(), b"x".to_vec()];
    let launch =
        Process::spawn(&mut table, &mut manager, &FLAT, &args, selectors()).expect("it runs");
    assert_eq!(id(&table), 1);
    assert_eq!(table.max_pid, 2);
    let stack = 0x100_0000 + MAX_PROC_SIZE - 4096;
    let heap = 0x100_0000 + (MAX_PROC_SIZE - 4096) / 2;
    assert_eq!(
        launch.frame,
        StackFrame {
            instruction_pointer: 0x100_0000,
            code_segment: 0x2B,
            cpu_flags: 0x200,
            stack_pointer: stack,
            stack_segment: 0x33,
        }
    );
    assert_eq!(launch.page_table_frame, 0x100000);
    assert_eq!(launch.args_len, 2);
    assert_eq!(launch.descriptors, vec![(heap, 4), (heap + 4, 1)]);
    assert_eq!(launch.copies[1].data, b"x".to_vec());
    // the end of the arguments, 5 bytes in, is moved up to the next multiple of 8
    assert_eq!(launch.args_ptr, heap + 8);
    let child = &table.procs[1];
    assert_eq!(child.heap_addr, heap + 8);
    assert_eq!(child.heap_size, (stack - (heap + 8)) / 2);
    assert!(child.space.contains_key(&(heap - heap % 4096)));
    assert_eq!(code_addr(&table), 0x100_0000);
}

#[test]
fn an_aligned_end_of_arguments_still_moves_eight_bytes() {
    let mut table = ProcessTable::new(0);
    let mut manager = memory();
    init_process_addr(&mut table, 0x100_0000);
    let launch = Process::spawn(&mut table, &mut manager, &FLAT, &Vec::new(), selectors())
        .expect("it runs");
    let heap = 0x100_0000 + (MAX_PROC_SIZE - 4096) / 2;
    assert_eq!(launch.args_ptr, heap + 8);
}

#[test]
fn exit_goes_back_to_the_parent() {
    let mut table = ProcessTable::new(0x5000);
    let mut manager = memory();
    init_process_addr(&mut table, 0x100_0000);
    Process::spawn(&mut table, &mut manager, &FLAT, &Vec::new(), selectors()).expect("it runs");
    assert_eq!(id(&table), 1);
    exit(&mut table);
    assert_eq!(id(&table), 0);
    assert_eq!(table.max_pid, 1);
    assert_eq!(page_table_frame(&table), 0x5000);
    // the child's pages are gone
    assert!(table.procs[1].space.is_empty());
}

#[test]
fn the_kernel_does_not_exit() {
    let mut table = ProcessTable::new(0);
    exit(&mut table);
    assert_eq!(id(&table), 0);
    assert_eq!(table.max_pid, 1);
}

#[test]
fn set_id_switches_the_running_process() {
    let mut table = ProcessTable::new(0);
    let mut manager = memory();
    init_process_addr(&mut table, 0x100_0000);
    assert_eq!(Process::create(&mut table, &mut manager, &FLAT), Ok(1));
    set_id(&mut table, 1);
    assert_eq!(id(&table), 1);
    assert_eq!(code_addr(&table), 0x100_0000);
}
