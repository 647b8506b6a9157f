//! How the local APIC and the I/O APIC are set up.

use vstd::prelude::*;
use crate::idt::{interrupt_index, set_irq_handler, IrqHandler, IrqHandlers, IRQ_INDEX, IRQ_LINES};
use crate::mem::{identity_map, identity_mapped, MapError, MemoryManager};

verus! {

/// The first vector that the I/O APIC raises.
pub const IO_APIC_OFFSET: u8 = 100;

/// The IRQ line of the local APIC's timer.
pub const TIMER_IRQ: u8 = 5;

/// The IRQ line on which the local APIC reports an error.
pub const ERROR_IRQ: u8 = 1;

/// The vector of spurious interrupts, which is masked.
pub const SPURIOUS_VECTOR: usize = 0xff;

/// The devices whose interrupts come through the I/O APIC.
#[derive(Clone, Copy, Debug, PartialEq, Eq, Structural)]
pub enum IoApicTableIndex {
    Keyboard,
    Mouse,
}

impl IoApicTableIndex {
    /// The IRQ line of the device: 1 for the keyboard, 12 for the mouse.
    pub open spec fn spec_irq(self) -> u8 {
        match self {
            IoApicTableIndex::Keyboard => 1,
            IoApicTableIndex::Mouse => 12,
        }
    }

    pub fn irq(self) -> (irq: u8)
        ensures
            irq == self.spec_irq(),
            irq < IRQ_LINES,
    {
        match self {
            IoApicTableIndex::Keyboard => 1,
            IoApicTableIndex::Mouse => 12,
        }
    }
}

/// How an interrupt is delivered.
#[derive(Clone, Copy, Debug, PartialEq, Eq, Structural)]
pub enum IrqMode {
    Fixed,
}

/// The line is triggered by its level, not by an edge.
pub const LEVEL_TRIGGERED: u32 = 0x0000_8000;

/// The line is active when low.
pub const LOW_ACTIVE: u32 = 0x0000_2000;

/// The line is masked.
pub const MASKED: u32 = 0x0001_0000;

/// The flags of an entry that this kernel installs: level triggered, low
/// active, and masked until a handler is set.
pub const ENTRY_FLAGS: u32 = 0x0001_A000;

/// One entry of the I/O APIC's redirection table.
#[derive(Clone, Copy, Debug, PartialEq, Eq, Structural)]
pub struct RedirectionEntry {
    /// The IRQ line that the entry is for.
    pub irq: u8,
    pub mode: IrqMode,
    /// The local APIC that gets the interrupt.
    pub dest: u8,
    pub vector: u8,
    pub flags: u32,
}

/// The entry that sends an IRQ line to a local APIC as a vector.
pub fn register_io_apic_entry(lapic_id: u8, int_index: u8, irq_index: u8) -> (entry:
    RedirectionEntry)
    ensures
        entry == (RedirectionEntry {
            irq: irq_index,
            mode: IrqMode::Fixed,
            dest: lapic_id,
            vector: int_index,
            flags: ENTRY_FLAGS,
        }),
{
    RedirectionEntry {
        irq: irq_index,
        mode: IrqMode::Fixed,
        dest: lapic_id,
        vector: int_index,
        flags: ENTRY_FLAGS,
    }
}

/// The entry for a device, as `init_io_apic` installs it.
pub open spec fn device_entry(device: IoApicTableIndex, local_apic_id: u8) -> RedirectionEntry {
    RedirectionEntry {
        irq: device.spec_irq(),
        mode: IrqMode::Fixed,
        dest: local_apic_id,
        vector: (IRQ_INDEX + device.spec_irq()) as u8,
        flags: ENTRY_FLAGS,
    }
}

/// Sets an I/O APIC up: its registers are identity-mapped, and the
/// keyboard and the mouse get their entries, in this order.
pub fn init_io_apic(manager: &mut MemoryManager, io_apic_address: u64, local_apic_id: u8) -> (result:
    Result<(RedirectionEntry, RedirectionEntry), MapError>)
    ensures
        (final(manager).pages(), match result {
            Ok(_) => Ok::<(), MapError>(()),
            Err(e) => Err::<(), MapError>(e),
        }) == identity_mapped(old(manager).pages(), io_apic_address, None),
        final(manager).allocator == old(manager).allocator,
        final(manager).phys_mem_offset == old(manager).phys_mem_offset,
        final(manager).memory_size == old(manager).memory_size,
        result matches Ok(entries) ==> entries.0 == device_entry(
            IoApicTableIndex::Keyboard,
            local_apic_id,
        ) && entries.1 == device_entry(IoApicTableIndex::Mouse, local_apic_id),
{
    match identity_map(manager, io_apic_address, None) {
        Ok(()) => {},
        Err(e) => {
            return Err(e);
        },
    }
    let keyboard: u8 = IoApicTableIndex::Keyboard.irq();
    let mouse: u8 = IoApicTableIndex::Mouse.irq();
    Ok(
        (
            register_io_apic_entry(local_apic_id, interrupt_index(keyboard), keyboard),
            register_io_apic_entry(local_apic_id, interrupt_index(mouse), mouse),
        ),
    )
}

/// How the local APIC's timer counts.
#[derive(Clone, Copy, Debug, PartialEq, Eq, Structural)]
pub enum TimerMode {
    OneShot,
    Periodic,
}

/// How the local APIC is set up.
#[derive(Clone, Copy, Debug, PartialEq, Eq, Structural)]
pub struct LocalApicConfig {
    pub timer_vector: usize,
    /// What the bus clock is divided by for the timer.
    pub timer_divide: u8,
    pub timer_mode: TimerMode,
    pub error_vector: usize,
    pub spurious_vector: usize,
    pub xapic_base: u64,
}

/// The settings of the local APIC at `local_apic_address`.
pub open spec fn local_apic_config(local_apic_address: u64) -> LocalApicConfig {
    LocalApicConfig {
        timer_vector: (IRQ_INDEX + TIMER_IRQ) as usize,
        timer_divide: 64,
        timer_mode: TimerMode::Periodic,
        error_vector: (IRQ_INDEX + ERROR_IRQ) as usize,
        spurious_vector: SPURIOUS_VECTOR,
        xapic_base: local_apic_address,
    }
}

/// Sets the local APIC up: its registers are identity-mapped, and its
/// settings come back.
pub fn init_local_apic(manager: &mut MemoryManager, local_apic_address: u64) -> (result: Result<
    LocalApicConfig,
    MapError,
>)
    ensures
        (final(manager).pages(), match result {
            Ok(_) => Ok::<(), MapError>(()),
            Err(e) => Err::<(), MapError>(e),
        }) == identity_mapped(old(manager).pages(), local_apic_address, None),
        final(manager).allocator == old(manager).allocator,
        final(manager).phys_mem_offset == old(manager).phys_mem_offset,
        final(manager).memory_size == old(manager).memory_size,
        result matches Ok(config) ==> config == local_apic_config(local_apic_address),
{
    match identity_map(manager, local_apic_address, None) {
        Ok(()) => {},
        Err(e) => {
            return Err(e);
        },
    }
    Ok(
        LocalApicConfig {
            timer_vector: interrupt_index(TIMER_IRQ) as usize,
            timer_divide: 64,
            timer_mode: TimerMode::Periodic,
            error_vector: interrupt_index(ERROR_IRQ) as usize,
            spurious_vector: SPURIOUS_VECTOR,
            xapic_base: local_apic_address,
        },
    )
}

/// The handlers that the APIC needs: the timer's on line 0 and the error
/// handler's on line 1.
pub fn init(table: &mut IrqHandlers)
    requires
        old(table).wf(),
    ensures
        final(table).wf(),
        final(table).handlers@ == old(table).handlers@.update(0, IrqHandler::Timer).update(
            1,
            IrqHandler::ApicError,
        ),
{
    set_irq_handler(table, 0, IrqHandler::Timer);
    set_irq_handler(table, 1, IrqHandler::ApicError);
}

} // verus!
