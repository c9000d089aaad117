//! Architecture-neutral vocabulary of the substrate: mapping permission
//! flags, mapping errors, and the classification of bootloader memory-map
//! ranges into allocator fuel versus kernel mappings.

use vstd::prelude::*;

verus! {

/// Permission flags of one mapping: the leaf-entry flag set
/// {writable, executable, user-accessible}.
#[derive(Clone, Copy, PartialEq, Eq, Structural, Debug)]
pub struct MemoryFlags {
    pub writable: bool,
    pub executable: bool,
    pub user: bool,
}

impl MemoryFlags {
    /// No permission beyond bare presence.
    pub fn empty() -> (r: MemoryFlags)
        ensures
            r == (MemoryFlags { writable: false, executable: false, user: false }),
    {
        MemoryFlags { writable: false, executable: false, user: false }
    }
}

/// Why a mapping request was rejected. The first payload is the address at
/// fault; `AlreadyMapped` carries the virtual page that conflicted and the
/// physical address that was being mapped onto it.
#[derive(Clone, Copy, PartialEq, Eq, Structural, Debug)]
pub enum MemoryMapError {
    InvalidAlignment(u64),
    AlreadyMapped(u64, u64),
}

/// The framebuffer descriptor of the bootloader hand-off: the mode and the
/// physical base address of the device memory.
#[derive(Clone, Copy, PartialEq, Eq, Structural, Debug)]
pub struct Framebuffer {
    pub width: usize,
    pub height: usize,
    pub stride: usize,
    pub bpp: usize,
    pub base: u64,
}

impl Framebuffer {
    /// How many bytes of device memory the mode covers: what the kernel
    /// maps for the console.
    pub fn byte_len(&self) -> (r: usize)
        requires
            self.bpp >= 8,
            self.height * self.stride * (self.bpp / 8) <= usize::MAX,
        ensures
            r == self.height * self.stride * ((self.bpp / 8) as int),
    {
        proof {
            assert(self.height * self.stride <= self.height * self.stride * (self.bpp
                / 8)) by (nonlinear_arith)
                requires
                    self.bpp / 8 >= 1,
                    0 <= self.height,
                    0 <= self.stride,
            ;
        }
        self.height * self.stride * (self.bpp / 8)
    }
}

/// The kind of one bootloader memory-map range.
#[derive(Clone, Copy, PartialEq, Eq, Structural, Debug)]
pub enum RegionKind {
    Conventional,
    BootServicesCode,
    BootServicesData,
    RuntimeServicesCode,
    RuntimeServicesData,
    LoaderCode,
    LoaderData,
    AcpiNonVolatile,
    AcpiReclaim,
    Other,
}

/// What the substrate does with one memory-map range while booting.
#[derive(Clone, Copy, PartialEq, Eq, Structural, Debug)]
pub enum RegionAction {
    /// Map it into the kernel's own table with these permissions.
    MapWith(MemoryFlags),
    /// Leave it untouched.
    Skip,
}

/// Ranges of these kinds, above the size threshold, feed the allocator.
pub open spec fn spec_allocator_usable(kind: RegionKind, page_count: u64) -> bool {
    &&& (kind is Conventional || kind is BootServicesCode || kind is BootServicesData)
    &&& page_count > 0x1000
}

/// Whether a memory-map range is handed to the physical allocator: usable
/// and boot-service ranges above a minimum size threshold.
pub fn allocator_usable(kind: RegionKind, page_count: u64) -> (r: bool)
    ensures
        r == spec_allocator_usable(kind, page_count),
{
    match kind {
        RegionKind::Conventional | RegionKind::BootServicesCode | RegionKind::BootServicesData => {
            page_count > 0x1000
        },
        _ => false,
    }
}

/// The permissions with which one memory-map range enters the kernel's own
/// table: code ranges executable, data ranges writable, ACPI non-volatile
/// ranges present but bare, ACPI-reclaimable ranges unmapped, anything else
/// skipped.
pub open spec fn spec_region_action(kind: RegionKind) -> RegionAction {
    match kind {
        RegionKind::LoaderCode => RegionAction::MapWith(
            MemoryFlags { writable: true, executable: true, user: false },
        ),
        RegionKind::RuntimeServicesCode => RegionAction::MapWith(
            MemoryFlags { writable: false, executable: true, user: false },
        ),
        RegionKind::Conventional | RegionKind::BootServicesCode | RegionKind::BootServicesData
            | RegionKind::RuntimeServicesData | RegionKind::LoaderData => RegionAction::MapWith(
            MemoryFlags { writable: true, executable: false, user: false },
        ),
        RegionKind::AcpiNonVolatile => RegionAction::MapWith(
            MemoryFlags { writable: false, executable: false, user: false },
        ),
        RegionKind::AcpiReclaim | RegionKind::Other => RegionAction::Skip,
    }
}

/// Classifies one memory-map range for the kernel's own table.
pub fn region_action(kind: RegionKind) -> (r: RegionAction)
    ensures
        r == spec_region_action(kind),
{
    match kind {
        RegionKind::LoaderCode => RegionAction::MapWith(
            MemoryFlags { writable: true, executable: true, user: false },
        ),
        RegionKind::RuntimeServicesCode => RegionAction::MapWith(
            MemoryFlags { writable: false, executable: true, user: false },
        ),
        RegionKind::Conventional | RegionKind::BootServicesCode | RegionKind::BootServicesData
            | RegionKind::RuntimeServicesData | RegionKind::LoaderData => RegionAction::MapWith(
            MemoryFlags { writable: true, executable: false, user: false },
        ),
        RegionKind::AcpiNonVolatile => RegionAction::MapWith(
            MemoryFlags { writable: false, executable: false, user: false },
        ),
        RegionKind::AcpiReclaim | RegionKind::Other => RegionAction::Skip,
    }
}

} // verus!
