use gate_os::acpi::{
    apic_info, platform_info, pm_timer, processor_info, ACPIHandler, AcpiHandlerImpl, Apic,
    InterruptModel, IoApic, PlatformInfo, PmTimer, ProcessorInfo,
};
use gate_os::apic::{
    init_io_apic, init_local_apic, register_io_apic_entry, IoApicTableIndex, IrqMode,
    RedirectionEntry, TimerMode, ENTRY_FLAGS, LEVEL_TRIGGERED, LOW_ACTIVE, MASKED,
};
use gate_os::exceptions::{
    exception_handler, exception_of, page_fault_handler, Exception, FaultAction,
};
use gate_os::idt::{
    classify, default_irq_handler, end_of_interrupt, interrupt_index, set_irq_handler, Interrupt,
    IrqHandler, IrqHandlers,
};
use gate_os::interrupts::{Cli, InterruptState};
use gate_os::kernel::{init, BootError, BootInfo};
use gate_os::framebuffer::{FrameBufferInfo, PixelFormat};
use gate_os::mem::{MapError, MemoryRegion, MemoryRegionKind, UnmapError};
use gate_os::pci::{get_pci_device, pci_config_address, pci_config_read_word, PCIDevice};
use gate_os::process::{ExitCode, ProcessTable};
use gate_os::time::{
    calibrate, last_rtc_update, nanowait, pit_interrupt_handler, rtc_interrupt_handler, ticks,
    Clock,
};

fn memory(frames: u64) -> gate_os::mem::MemoryManager {
    gate_os::mem::init(
        0,
        vec![MemoryRegion {
            start: 0x100000,
            end: 0x100000 + frames * 4096,
            kind: MemoryRegionKind::Usable,
        }],
    )
}

#[test]
fn irq_lines_start_at_vector_32() {
    assert_eq!(interrupt_index(0), 0x20);
    assert_eq!(interrupt_index(1), 0x21);
    assert_eq!(interrupt_index(15), 0x2F);
    assert_eq!(interrupt_index(0xDF), 0xFF);
}

#[test]
fn every_line_has_a_handler() {
    let mut table = gate_os::idt::init();
    default_irq_handler();
    assert_eq!(table.handlers, vec![IrqHandler::Default; 16]);
    set_irq_handler(&mut table, 1, IrqHandler::Keyboard);
    set_irq_handler(&mut table, 12, IrqHandler::Mouse);
    set_irq_handler(&mut table, 1, IrqHandler::ApicError);
    assert_eq!(table.handler(1), IrqHandler::ApicError);
    assert_eq!(table.handler(12), IrqHandler::Mouse);
    assert_eq!(table.handler(2), IrqHandler::Default);
}

#[test]
fn vectors_are_told_apart() {
    let mut table = IrqHandlers::new();
    set_irq_handler(&mut table, 0, IrqHandler::Pit);
    assert_eq!(classify(&table, 0x20), Interrupt::Irq { line: 0, handler: IrqHandler::Pit });
    assert_eq!(classify(&table, 0x2F), Interrupt::Irq { line: 15, handler: IrqHandler::Default });
    assert_eq!(classify(&table, 0x30), Interrupt::Other);
    assert_eq!(classify(&table, 0x1F), Interrupt::Other);
    assert_eq!(classify(&table, 0x80), Interrupt::Syscall);
    assert_eq!(classify(&table, 14), Interrupt::Other);
    assert!(end_of_interrupt(classify(&table, 0x21)));
    assert!(end_of_interrupt(Interrupt::Syscall));
    assert!(!end_of_interrupt(Interrupt::Other));
}

#[test]
fn the_clocks_count() {
    let mut table = IrqHandlers::new();
    let mut clock = gate_os::time::init(&mut table);
    assert_eq!(table.handler(0), IrqHandler::Pit);
    assert_eq!(table.handler(8), IrqHandler::Rtc);
    assert_eq!(ticks(&clock), 0);
    pit_interrupt_handler(&mut clock);
    pit_interrupt_handler(&mut clock);
    assert_eq!(ticks(&clock), 2);
    assert_eq!(last_rtc_update(&clock), 0);
    rtc_interrupt_handler(&mut clock);
    assert_eq!(last_rtc_update(&clock), 2);
    clock.pit_ticks = usize::MAX;
    pit_interrupt_handler(&mut clock);
    assert_eq!(ticks(&clock), 0);
}

#[test]
fn the_time_stamp_counter_is_calibrated() {
    let mut clock = Clock { pit_ticks: 0, last_rtc_update: 0, clocks_per_nanosecond: 0 };
    // three counts in each of the 250_000_000 nanoseconds
    calibrate(&mut clock, 1_000, 750_001_000);
    assert_eq!(clock.clocks_per_nanosecond, 3);
    calibrate(&mut clock, 1_000, 750_000_999);
    assert_eq!(clock.clocks_per_nanosecond, 2);
    // the counter may pass its end while it is measured
    calibrate(&mut clock, u64::MAX - 9, 499_990);
    assert_eq!(clock.clocks_per_nanosecond, 0);
    calibrate(&mut clock, u64::MAX - 9, 499_999_990);
    assert_eq!(clock.clocks_per_nanosecond, 2);
}

#[test]
fn a_wait_lasts_until_the_counts_are_through() {
    let clock = Clock { pit_ticks: 0, last_rtc_update: 0, clocks_per_nanosecond: 3 };
    assert!(nanowait(&clock, 100, 1000, 1000));
    assert!(nanowait(&clock, 100, 1000, 1299));
    assert!(!nanowait(&clock, 100, 1000, 1300));
    assert!(!nanowait(&clock, 0, 1000, 1000));
    assert!(nanowait(&clock, 100, u64::MAX, 298));
    assert!(!nanowait(&clock, 100, u64::MAX, 299));
    assert!(nanowait(&clock, u64::MAX, 0, u64::MAX - 1));
}

#[test]
fn the_guard_clears_the_interrupt_flag() {
    let mut state = InterruptState { enabled: true, ticks: 5 };
    let guard = Cli::new(&mut state);
    assert!(!state.enabled);
    guard.release(&mut state);
    assert!(state.enabled);
    assert_eq!(gate_os::interrupts::ticks(&state), 5);
}

#[test]
fn redirection_entries_for_keyboard_and_mouse() {
    assert_eq!(IoApicTableIndex::Keyboard.irq(), 1);
    assert_eq!(IoApicTableIndex::Mouse.irq(), 12);
    assert_eq!(ENTRY_FLAGS, LEVEL_TRIGGERED | LOW_ACTIVE | MASKED);
    let mut manager = memory(4);
    let (keyboard, mouse) = init_io_apic(&mut manager, 0xFEC0_0000, 3).expect("not mapped yet");
    assert_eq!(
        keyboard,
        RedirectionEntry { irq: 1, mode: IrqMode::Fixed, dest: 3, vector: 0x21, flags: 0x1A000 }
    );
    assert_eq!(mouse, register_io_apic_entry(3, 0x2C, 12));
    assert!(manager.mapper.contains_key(&0xFEC0_0000));
    assert_eq!(
        init_io_apic(&mut manager, 0xFEC0_0000, 3),
        Err(MapError::PageAlreadyMapped)
    );
}

#[test]
fn the_local_apic_is_set_up() {
    let mut manager = memory(4);
    let config = init_local_apic(&mut manager, 0xFEE0_0000).expect("not mapped yet");
    assert_eq!(config.timer_vector, 0x25);
    assert_eq!(config.timer_divide, 64);
    assert_eq!(config.timer_mode, TimerMode::Periodic);
    assert_eq!(config.error_vector, 0x21);
    assert_eq!(config.spurious_vector, 0xFF);
    assert_eq!(config.xapic_base, 0xFEE0_0000);
    assert!(manager.mapper.contains_key(&0xFEE0_0000));
    assert_eq!(init_local_apic(&mut manager, 0xFEE0_0800), Err(MapError::PageAlreadyMapped));
    let mut table = IrqHandlers::new();
    gate_os::apic::init(&mut table);
    assert_eq!(table.handler(0), IrqHandler::Timer);
    assert_eq!(table.handler(1), IrqHandler::ApicError);
}

#[test]
fn pci_configuration_addresses() {
    assert_eq!(pci_config_address(0, 0, 0, 0), 0x8000_0000);
    assert_eq!(pci_config_address(1, 2, 3, 0x47), 0x8001_1344);
    assert_eq!(pci_config_address(255, 255, 255, 255), 0x80FF_FFFC);
    assert_eq!(pci_config_read_word(0x1234_5678, 0), 0x5678);
    assert_eq!(pci_config_read_word(0x1234_5678, 2), 0x1234);
    assert_eq!(pci_config_read_word(0x1234_5678, 3), 0x1234);
    assert_eq!(pci_config_read_word(0x1234_5678, 4), 0x5678);
    assert_eq!(get_pci_device(0, 1, 0xffff, 7), None);
    assert_eq!(
        get_pci_device(0, 1, 0x8086, 7),
        Some(PCIDevice { bus: 0, slot: 1, device: 7, vendor: 0x8086 })
    );
}

#[test]
fn the_platform_description_is_read() {
    let info = PlatformInfo {
        interrupt_model: InterruptModel::Apic(Apic {
            local_apic_address: 0xFEE0_0000,
            io_apics: vec![IoApic { id: 0, address: 0xFEC0_0000 }],
        }),
        processor_info: None,
        pm_timer: Some(PmTimer { base: 0x608, supports_32bit: true }),
    };
    assert_eq!(apic_info(&info).map(|a| a.local_apic_address), Some(0xFEE0_0000));
    assert_eq!(apic_info(platform_info(&info)).map(|a| a.io_apics.len()), Some(1));
    assert!(processor_info(&info).is_none());
    assert_eq!(pm_timer(&info).map(|t| t.base), Some(0x608));
    let info = PlatformInfo {
        interrupt_model: InterruptModel::Unknown,
        processor_info: Some(ProcessorInfo { boot_processor: 0, application_processors: vec![1] }),
        pm_timer: None,
    };
    assert!(apic_info(&info).is_none());
    assert_eq!(processor_info(&info).map(|p| p.application_processors.len()), Some(1));
    assert!(pm_timer(&info).is_none());
}

#[test]
fn acpi_regions_are_reached() {
    let handler = AcpiHandlerImpl::new(0x1000);
    assert_eq!(handler.map_physical_region(0xE0000), Some(0xE1000));
    assert_eq!(handler.map_physical_region(usize::MAX), None);
    assert_eq!(AcpiHandlerImpl::new(0).map_physical_region(0), None);
    let mut manager = memory(1);
    assert_eq!(ACPIHandler.map_physical_region(&mut manager, 0xE0010), 0xE0010);
    assert!(manager.mapper.contains_key(&0xE0000));
    assert_eq!(ACPIHandler.map_physical_region(&mut manager, 0xE0020), 0xE0020);
    assert_eq!(manager.mapper.len(), 1);
    assert_eq!(ACPIHandler.unmap_physical_region(&mut manager, 0xE0010), Ok(()));
    assert_eq!(
        ACPIHandler.unmap_physical_region(&mut manager, 0xE0010),
        Err(UnmapError::PageNotMapped)
    );
}

#[test]
fn only_a_breakpoint_is_passed() {
    assert_eq!(exception_handler(Exception::Breakpoint), FaultAction::Resume);
    for exception in [
        Exception::NonMaskableInterrupt,
        Exception::DivideError,
        Exception::InvalidOpcode,
        Exception::GeneralProtectionFault,
        Exception::StackSegmentFault,
        Exception::SegmentNotPresent,
        Exception::DoubleFault,
        Exception::PageFault,
    ] {
        assert_eq!(exception_handler(exception), FaultAction::Halt);
    }
}

#[test]
fn vectors_name_exceptions() {
    let named = [
        (0, Exception::DivideError),
        (2, Exception::NonMaskableInterrupt),
        (3, Exception::Breakpoint),
        (6, Exception::InvalidOpcode),
        (8, Exception::DoubleFault),
        (11, Exception::SegmentNotPresent),
        (12, Exception::StackSegmentFault),
        (13, Exception::GeneralProtectionFault),
        (14, Exception::PageFault),
    ];
    for vector in 0..=u8::MAX {
        let expected = named.iter().find(|(v, _)| *v == vector).map(|(_, e)| *e);
        assert_eq!(exception_of(vector), expected);
    }
}

#[test]
fn a_page_fault_maps_the_page() {
    let mut table = ProcessTable::new(0);
    let mut manager = memory(1);
    assert_eq!(page_fault_handler(&mut table, &mut manager, 0x7123, true), FaultAction::Resume);
    assert_eq!(table.procs[0].space.get(&0x7000).map(|e| (e.frame, e.flags)), Some((0x100000, 7)));
    // the page is mapped now, so a second fault on it cannot be served
    assert_eq!(
        page_fault_handler(&mut table, &mut manager, 0x7456, true),
        FaultAction::Exit(ExitCode::PageFaultError)
    );
    assert_eq!(page_fault_handler(&mut table, &mut manager, 0x9000, false), FaultAction::Halt);
    assert_eq!(table.procs[0].space.len(), 1);
}

fn boot_info() -> BootInfo {
    BootInfo {
        physical_memory_offset: Some(0x1800_0000_0000),
        memory_regions: vec![
            MemoryRegion { start: 0, end: 0x100000, kind: MemoryRegionKind::Reserved },
            MemoryRegion { start: 0x100000, end: 0x10000000, kind: MemoryRegionKind::Usable },
        ],
        framebuffer: Some((
            vec![0x55; 100 * 40 * 4],
            FrameBufferInfo {
                width: 100,
                height: 40,
                stride: 100,
                bytes_per_pixel: 4,
                pixel_format: PixelFormat::Rgb,
            },
        )),
        rsdp_addr: Some(0xE0000),
    }
}

#[test]
fn the_kernel_comes_up() {
    let kernel = init(boot_info(), 0x2000).ok().expect("everything is there");
    assert_eq!(kernel.console.screen.position(), (1, 1));
    assert!(kernel.console.screen.buffer().iter().all(|b| *b == 0));
    assert_eq!(kernel.memory.phys_mem_offset, 0x1800_0000_0000);
    assert_eq!(kernel.memory.memory_size, 0x10000000);
    assert_eq!(kernel.memory.mapper.len(), 25);
    assert_eq!(kernel.memory.allocator.next, 25);
    assert_eq!(kernel.heap.heap_size, 100 * 1024);
    assert_eq!(kernel.irqs.handler(0), IrqHandler::Pit);
    assert_eq!(kernel.irqs.handler(8), IrqHandler::Rtc);
    assert_eq!(kernel.processes.pid, 0);
    assert_eq!(kernel.processes.procs[0].page_table_frame, 0x2000);
    assert_eq!(kernel.rsdp_addr, 0xE0000);
}

#[test]
fn the_kernel_does_not_come_up_without_what_it_needs() {
    let error = |info: BootInfo| init(info, 0).err();
    assert_eq!(error(BootInfo { framebuffer: None, ..boot_info() }), Some(BootError::Framebuffer));
    let mut short = boot_info();
    short.framebuffer.as_mut().unwrap().0.pop();
    short.rsdp_addr = None;
    assert_eq!(error(short), Some(BootError::Framebuffer));
    assert_eq!(
        error(BootInfo { physical_memory_offset: None, rsdp_addr: None, ..boot_info() }),
        Some(BootError::PhysicalMemoryOffset)
    );
    assert_eq!(error(BootInfo { rsdp_addr: None, ..boot_info() }), Some(BootError::RsdpAddress));
    assert_eq!(
        error(BootInfo { memory_regions: Vec::new(), ..boot_info() }),
        Some(BootError::Heap(MapError::FrameAllocationFailed))
    );
}
