//! PCI configuration-space access arithmetic and the MSI-X capability: the
//! address word the legacy configuration ports take, and the capability
//! fields a driver reads, enables, and locates its vector table through.

use vstd::prelude::*;

verus! {

/// The enable bit of the legacy configuration-address word.
pub const PCI_CONFIG_ADDRESS_ENABLE: u32 = 0x8000_0000;

/// Access to the legacy PCI configuration space through the two I/O ports;
/// the port reads and writes themselves are performed by the surrounding
/// runtime with the address words computed here.
#[derive(Clone, Copy, PartialEq, Eq, Structural, Debug)]
pub struct PciConfigRegion;

impl PciConfigRegion {
    /// A handle on the configuration space.
    pub fn new() -> (r: PciConfigRegion)
        ensures
            r == PciConfigRegion,
    {
        PciConfigRegion
    }
}

/// The word written to the configuration-address port to select one
/// device's register: the enable bit, the bus in bits 16..24, the device in
/// bits 11..16, and the register offset.
pub fn config_address(bus: u8, device: u8, register: u16) -> (r: u32)
    ensures
        r == (PCI_CONFIG_ADDRESS_ENABLE | ((bus as u32) << 16) | ((device as u32) << 11) | (
        register as u32)),
{
    PCI_CONFIG_ADDRESS_ENABLE | ((bus as u32) << 16) | ((device as u32) << 11) | (register as u32)
}

/// The MSI-X capability of a device, as read out of its capability list.
#[derive(Clone, Copy, PartialEq, Eq, Structural, Debug)]
pub struct MsixCapability {
    pub cap_id: u8,
    pub cap_next: u8,
    pub message_control: u16,
    pub table_offset: u32,
    pub pba_offset: u32,
}

/// One entry of a device's MSI-X vector table.
#[derive(Clone, Copy, PartialEq, Eq, Structural, Debug)]
pub struct MsixTableEntry {
    pub message_address: u64,
    pub message_data: u32,
    pub vector_control: u32,
}

impl MsixCapability {
    /// The capability reassembled from the three 32-bit words the
    /// configuration space hands out: identifier and next pointer in the
    /// low bytes of the first word, message control above them, then the
    /// table and pending-bit-array words.
    pub fn from_words(w0: u32, w1: u32, w2: u32) -> (r: MsixCapability)
        ensures
            r.cap_id == w0 % 0x100,
            r.cap_next == (w0 / 0x100) % 0x100,
            r.message_control == w0 / 0x10000,
            r.table_offset == w1,
            r.pba_offset == w2,
    {
        MsixCapability {
            cap_id: (w0 % 0x100) as u8,
            cap_next: ((w0 / 0x100) % 0x100) as u8,
            message_control: (w0 / 0x10000) as u16,
            table_offset: w1,
            pba_offset: w2,
        }
    }

    /// Sets the capability's enable bit; the caller writes the capability
    /// back to the device.
    pub fn enable(&mut self)
        ensures
            final(self).message_control == (old(self).message_control | 0x8000),
            final(self).cap_id == old(self).cap_id,
            final(self).cap_next == old(self).cap_next,
            final(self).table_offset == old(self).table_offset,
            final(self).pba_offset == old(self).pba_offset,
    {
        self.message_control = self.message_control | 0x8000;
    }

    /// How many entries the vector table holds, per the size field of the
    /// message-control word.
    pub fn table_length(&self) -> (r: u16)
        ensures
            r == (self.message_control & 0x3ff),
    {
        self.message_control & 0x3ff
    }

    /// Where the vector table lives: the table offset (with its low
    /// register bits masked off) added to the base address of the table's
    /// base-address-register window.
    pub fn table_start(&self, bar_address: u64) -> (r: u64)
        requires
            bar_address + 0x10000 <= u64::MAX,
        ensures
            r == bar_address + (self.table_offset & 0xfffc),
    {
        proof {
            let to = self.table_offset;
            assert(to & 0xfffc <= 0xfffc) by (bit_vector);
        }
        bar_address + (self.table_offset & 0xfffc) as u64
    }
}

} // verus!
