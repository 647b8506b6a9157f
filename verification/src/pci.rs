//! Addresses in the PCI configuration space.

use vstd::prelude::*;

verus! {

/// A device found on the PCI bus.
#[derive(Clone, Copy, Debug, PartialEq, Eq, Structural)]
pub struct PCIDevice {
    pub bus: u8,
    pub slot: u8,
    pub device: u16,
    pub vendor: u16,
}

/// The vendor number that an empty slot answers with.
pub const NO_VENDOR: u16 = 0xffff;

/// The address of a configuration register: the enable bit, then bus, slot
/// and function, then the register's offset without its two lowest bits.
pub open spec fn spec_config_address(bus: u8, slot: u8, func: u8, offset: u8) -> u32 {
    ((bus as u32) << 16) | ((slot as u32) << 11) | ((func as u32) << 8) | ((offset & 0xfc) as u32)
        | 0x8000_0000u32
}

/// The address to write to the address port before a configuration register
/// is read.
pub fn pci_config_address(bus: u8, slot: u8, func: u8, offset: u8) -> (address: u32)
    ensures
        address == spec_config_address(bus, slot, func, offset),
{
    let l_bus: u32 = (bus as u32) << 16;
    let l_slot: u32 = (slot as u32) << 11;
    let l_func: u32 = (func as u32) << 8;
    let masked_offset: u32 = (offset & 0xfc) as u32;
    l_bus | l_slot | l_func | masked_offset | 0x8000_0000
}

/// The 16-bit word at `offset` in the 32-bit value read from the data port:
/// the upper half where bit 1 of the offset is set, the lower half where not.
pub open spec fn spec_config_word(value: u32, offset: u8) -> u16 {
    if offset & 2 == 2 {
        (value >> 16) as u16
    } else {
        (value & 0xffff) as u16
    }
}

/// Picks the word of a configuration register out of what the data port
/// gave.
pub fn pci_config_read_word(value: u32, offset: u8) -> (word: u16)
    ensures
        word == spec_config_word(value, offset),
{
    let shift: u32 = ((offset & 2) as u32) * 8;
    assert(shift == 0 || shift == 16) by (bit_vector)
        requires
            shift == ((offset & 2) as u32) * 8,
    ;
    assert(offset & 2 == 2 <==> shift == 16) by (bit_vector)
        requires
            shift == ((offset & 2) as u32) * 8,
    ;
    let word: u32 = 0xffff & (value >> shift);
    assert(0xffffu32 & (value >> 16u32) == (value >> 16u32)) by (bit_vector);
    assert(0xffffu32 & (value >> 0u32) == value & 0xffff) by (bit_vector);
    assert((value >> 16u32) <= 0xffff) by (bit_vector);
    assert((value & 0xffff) <= 0xffff) by (bit_vector);
    word as u16
}

/// The device in a slot, told from the vendor and device words that the
/// slot answered with; none where the slot is empty.
pub fn get_pci_device(bus: u8, slot: u8, vendor: u16, device: u16) -> (found: Option<PCIDevice>)
    ensures
        found == if vendor == NO_VENDOR {
            None
        } else {
            Some(PCIDevice { bus, slot, device, vendor })
        },
{
    if vendor == NO_VENDOR {
        return None;
    }
    Some(PCIDevice { bus, slot, device, vendor })
}

} // verus!
