//! The kernel's state as a whole and how it comes up at boot.

use vstd::prelude::*;
use crate::allocator::{init_heap, FixedSizeBlockAllocator, BLOCK_CLASSES};
use crate::allocator::{HEAP_FLAGS, HEAP_SIZE, HEAP_START};
use crate::console::Console;
use crate::framebuffer::{FrameBufferInfo, Screen, BG, FG};
use crate::idt::{IrqHandler, IrqHandlers, IRQ_LINES};
use crate::keyboard::{ScancodeStream, KEYBOARD_QUEUE_SIZE};
use crate::mem::{capped_size, mapped, MapError, MemoryManager, MemoryRegion, Pages};
use crate::process::{ProcessTable, MAX_PROCS};
use crate::time::{Clock, PIT_IRQ, RTC_IRQ};
use crate::vt::is_fresh;

verus! {

/// What the bootloader hands over.
#[derive(Debug)]
pub struct BootInfo {
    /// Where all of physical memory is mapped, one address after the other.
    pub physical_memory_offset: Option<u64>,
    pub memory_regions: Vec<MemoryRegion>,
    /// The framebuffer's bytes with its geometry.
    pub framebuffer: Option<(Vec<u8>, FrameBufferInfo)>,
    /// Where the ACPI tables start.
    pub rsdp_addr: Option<u64>,
}

/// Why the kernel did not come up.
#[derive(Clone, Copy, Debug, PartialEq, Eq, Structural)]
pub enum BootError {
    /// The bootloader gave no framebuffer, or one whose geometry does not
    /// fit its bytes.
    Framebuffer,
    PhysicalMemoryOffset,
    RsdpAddress,
    /// The kernel heap could not be mapped.
    Heap(MapError),
}

/// Everything that the kernel keeps.
pub struct Kernel {
    pub console: Console,
    pub memory: MemoryManager,
    pub heap: FixedSizeBlockAllocator,
    pub irqs: IrqHandlers,
    pub clock: Clock,
    pub processes: ProcessTable,
    pub scancodes: ScancodeStream,
    pub rsdp_addr: u64,
}

/// What the boot comes to, told from what the bootloader handed over: the
/// first thing that is missing, or a heap that cannot be mapped, or nothing.
pub open spec fn boot_error(boot_info: BootInfo) -> Option<BootError> {
    if !(boot_info.framebuffer matches Some(fb) && fb.1.fits(fb.0@.len())) {
        Some(BootError::Framebuffer)
    } else if boot_info.physical_memory_offset is None {
        Some(BootError::PhysicalMemoryOffset)
    } else if boot_info.rsdp_addr is None {
        Some(BootError::RsdpAddress)
    } else {
        match mapped(
            Pages::empty(),
            boot_info.memory_regions@,
            0,
            HEAP_START,
            HEAP_SIZE,
            Some(HEAP_FLAGS),
        ).result {
            Err(e) => Some(BootError::Heap(e)),
            Ok(_) => None,
        }
    }
}

/// Brings the kernel up: the terminal over the framebuffer, memory
/// management over the memory map with the heap mapped, every IRQ line
/// quiet but for the two clocks, and the kernel as the only process, under
/// the page table at `page_table_frame`.
pub fn init(boot_info: BootInfo, page_table_frame: u64) -> (result: Result<Kernel, BootError>)
    ensures
        match result {
            Err(e) => boot_error(boot_info) == Some(e),
            Ok(kernel) => {
                &&& boot_error(boot_info) is None
                &&& kernel.console.wf()
                &&& kernel.console.stdin@ == Seq::<u8>::empty()
                &&& kernel.console.screen@ == (Screen {
                    fb: boot_info.framebuffer.unwrap().0@,
                    info: boot_info.framebuffer.unwrap().1,
                    x: 0,
                    y: 0,
                    fg: FG,
                    bg: BG,
                    palette: kernel.console.screen@.palette,
                    echo: true,
                    parser: kernel.console.screen@.parser,
                }).clear()
                &&& is_fresh(kernel.console.screen@.parser)
                &&& kernel.memory.phys_mem_offset == boot_info.physical_memory_offset.unwrap()
                &&& kernel.memory.memory_size == capped_size(boot_info.memory_regions@)
                &&& kernel.memory.allocator.memory_regions == boot_info.memory_regions
                &&& kernel.memory.pages() == mapped(
                    Pages::empty(),
                    boot_info.memory_regions@,
                    0,
                    HEAP_START,
                    HEAP_SIZE,
                    Some(HEAP_FLAGS),
                ).pages
                &&& kernel.memory.allocator.next == mapped(
                    Pages::empty(),
                    boot_info.memory_regions@,
                    0,
                    HEAP_START,
                    HEAP_SIZE,
                    Some(HEAP_FLAGS),
                ).next
                &&& kernel.heap.wf()
                &&& kernel.heap.heap_start == HEAP_START
                &&& kernel.heap.heap_size == HEAP_SIZE
                &&& forall|i: int|
                    0 <= i < BLOCK_CLASSES ==> kernel.heap.list(i) == Seq::<u64>::empty()
                &&& kernel.irqs.wf()
                &&& forall|i: int|
                    0 <= i < IRQ_LINES ==> kernel.irqs.handlers@[i] == if i == PIT_IRQ {
                        IrqHandler::Pit
                    } else if i == RTC_IRQ {
                        IrqHandler::Rtc
                    } else {
                        IrqHandler::Default
                    }
                &&& kernel.clock == (Clock {
                    pit_ticks: 0,
                    last_rtc_update: 0,
                    clocks_per_nanosecond: 0,
                })
                &&& kernel.processes.wf()
                &&& kernel.processes.pid == 0
                &&& kernel.processes.max_pid == 1
                &&& kernel.processes.next_code_addr == 0
                &&& forall|k: int|
                    0 <= k < MAX_PROCS ==> (#[trigger] kernel.processes.procs@[k]).fresh(
                        page_table_frame,
                    )
                &&& kernel.scancodes@ == Seq::<u8>::empty()
                &&& kernel.scancodes.capacity() == KEYBOARD_QUEUE_SIZE
                &&& kernel.rsdp_addr == boot_info.rsdp_addr.unwrap()
            },
        },
{
    let BootInfo { physical_memory_offset, memory_regions, framebuffer, rsdp_addr } = boot_info;
    let screen = match framebuffer {
        Some((bytes, info)) => match crate::framebuffer::init(bytes, info) {
            Some(screen) => screen,
            None => {
                return Err(BootError::Framebuffer);
            },
        },
        None => {
            return Err(BootError::Framebuffer);
        },
    };
    let physical_memory_offset: u64 = match physical_memory_offset {
        Some(offset) => offset,
        None => {
            return Err(BootError::PhysicalMemoryOffset);
        },
    };
    let rsdp_addr: u64 = match rsdp_addr {
        Some(addr) => addr,
        None => {
            return Err(BootError::RsdpAddress);
        },
    };
    let mut memory = crate::mem::init(physical_memory_offset, memory_regions);
    let heap = match init_heap(&mut memory) {
        Ok(heap) => heap,
        Err(e) => {
            return Err(BootError::Heap(e));
        },
    };
    let mut irqs = crate::idt::init();
    let clock = crate::time::init(&mut irqs);
    Ok(
        Kernel {
            console: Console::new(screen),
            memory,
            heap,
            irqs,
            clock,
            processes: ProcessTable::new(page_table_frame),
            scancodes: ScancodeStream::new(),
            rsdp_addr,
        },
    )
}

} // verus!
