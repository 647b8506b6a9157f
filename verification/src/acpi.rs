//! What the kernel reads of the platform description, and how the ACPI
//! tables are reached.

use vstd::prelude::*;
use crate::mem::{identity_map, identity_mapped, unmap, unmapped, MapError, MemoryManager, UnmapError};

verus! {

/// An I/O APIC that the platform has.
#[derive(Clone, Copy, Debug, PartialEq, Eq, Structural)]
pub struct IoApic {
    pub id: u8,
    pub address: u32,
}

/// The APICs of the platform.
#[derive(Debug)]
pub struct Apic {
    pub local_apic_address: u64,
    pub io_apics: Vec<IoApic>,
}

/// How the platform delivers interrupts.
#[derive(Debug)]
pub enum InterruptModel {
    Unknown,
    Apic(Apic),
}

/// The processors of the platform.
#[derive(Debug)]
pub struct ProcessorInfo {
    pub boot_processor: u32,
    pub application_processors: Vec<u32>,
}

/// The power management timer.
#[derive(Clone, Copy, Debug, PartialEq, Eq, Structural)]
pub struct PmTimer {
    pub base: u64,
    pub supports_32bit: bool,
}

/// What the ACPI tables tell about the platform.
#[derive(Debug)]
pub struct PlatformInfo {
    pub interrupt_model: InterruptModel,
    pub processor_info: Option<ProcessorInfo>,
    pub pm_timer: Option<PmTimer>,
}

/// The platform description itself.
pub fn platform_info(info: &PlatformInfo) -> (same: &PlatformInfo)
    ensures
        same == info,
{
    info
}

/// The APICs, where the platform delivers interrupts through them.
pub fn apic_info(info: &PlatformInfo) -> (apic: Option<&Apic>)
    ensures
        match info.interrupt_model {
            InterruptModel::Apic(a) => apic == Some(&a),
            InterruptModel::Unknown => apic is None,
        },
{
    match &info.interrupt_model {
        InterruptModel::Apic(apic) => Some(apic),
        InterruptModel::Unknown => None,
    }
}

/// The processors, where the tables name them.
pub fn processor_info(info: &PlatformInfo) -> (processors: Option<&ProcessorInfo>)
    ensures
        match info.processor_info {
            Some(p) => processors == Some(&p),
            None => processors is None,
        },
{
    info.processor_info.as_ref()
}

/// The power management timer, where the platform has one.
pub fn pm_timer(info: &PlatformInfo) -> (timer: Option<&PmTimer>)
    ensures
        match info.pm_timer {
            Some(t) => timer == Some(&t),
            None => timer is None,
        },
{
    info.pm_timer.as_ref()
}

/// Reaches the ACPI tables through the kernel's linear window onto
/// physical memory.
#[derive(Clone, Copy, Debug, PartialEq, Eq, Structural)]
pub struct AcpiHandlerImpl {
    pub offset: usize,
}

impl AcpiHandlerImpl {
    pub fn new(offset: usize) -> (handler: Self)
        ensures
            handler.offset == offset,
    {
        Self { offset }
    }

    /// Where a physical region shows in the window: at its address plus
    /// the window's offset. There is no such place where the sum is zero or
    /// beyond the address space.
    pub fn map_physical_region(&self, physical_address: usize) -> (virtual_address: Option<usize>)
        ensures
            virtual_address == if 0 < physical_address + self.offset <= usize::MAX {
                Some((physical_address + self.offset) as usize)
            } else {
                None
            },
    {
        if physical_address > usize::MAX - self.offset {
            None
        } else if physical_address + self.offset == 0 {
            None
        } else {
            Some(physical_address + self.offset)
        }
    }
}

/// Reaches the ACPI tables by mapping each region onto itself.
#[derive(Clone, Copy, Debug, PartialEq, Eq, Structural)]
pub struct ACPIHandler;

impl ACPIHandler {
    /// Identity-maps the page of a region and gives the region's address,
    /// which is then its virtual address too. A page that is mapped already
    /// is left as it is.
    pub fn map_physical_region(
        &self,
        manager: &mut MemoryManager,
        physical_address: u64,
    ) -> (virtual_address: u64)
        ensures
            final(manager).pages() == identity_mapped(
                old(manager).pages(),
                physical_address,
                None,
            ).0,
            final(manager).allocator == old(manager).allocator,
            final(manager).phys_mem_offset == old(manager).phys_mem_offset,
            final(manager).memory_size == old(manager).memory_size,
            virtual_address == physical_address,
    {
        let _ = identity_map(manager, physical_address, None);
        physical_address
    }

    /// Unmaps the page of a region.
    pub fn unmap_physical_region(
        &self,
        manager: &mut MemoryManager,
        virtual_start: u64,
    ) -> (result: Result<(), UnmapError>)
        ensures
            (final(manager).pages(), result) == unmapped(old(manager).pages(), virtual_start),
            final(manager).allocator == old(manager).allocator,
            final(manager).phys_mem_offset == old(manager).phys_mem_offset,
            final(manager).memory_size == old(manager).memory_size,
    {
        unmap(manager, virtual_start)
    }
}

} // verus!
