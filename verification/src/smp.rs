//! Secondary-core bring-up: patching the relocatable bootstrap blob that a
//! fresh core executes in real-address mode, and the requested/booted
//! handshake counters the cores synchronize on. The blob has four fixed
//! byte offsets — entry point, core id, stack top, page-table root — that
//! must match what the bootstrap stub expects.

use vstd::prelude::*;

use crate::bytes::{le32, le64, write_u32_le, write_u64_le};

verus! {

/// Physical address the bootstrap blob is placed at, reachable in
/// real-address mode.
pub const SMP_BOOT_CODE_ADDRESS: u64 = 0x8000;

/// Blob offset of the 64-bit entry point to jump to.
pub const SMP_BOOT_CODE_OFFSET_ENTRY: usize = 0x08;

/// Blob offset of the 32-bit core identifier.
pub const SMP_BOOT_CODE_OFFSET_CPU_ID: usize = 0x10;

/// Blob offset of the 64-bit stack-top pointer.
pub const SMP_BOOT_CODE_OFFSET_STACK: usize = 0x14;

/// Blob offset of the 32-bit page-table-root word.
pub const SMP_BOOT_CODE_OFFSET_PML4: usize = 0x1c;

/// Patches the fields common to every core into the blob: the address
/// space's root-frame physical address and the entry point every booted
/// core jumps to. Nothing else of the blob changes.
pub fn patch_boot_code_common(blob: &mut Vec<u8>, entry: u64, table_root: u32)
    requires
        old(blob).len() >= 0x20,
    ensures
        final(blob).len() == old(blob).len(),
        le64(final(blob)@, SMP_BOOT_CODE_OFFSET_ENTRY as int) == entry,
        le32(final(blob)@, SMP_BOOT_CODE_OFFSET_PML4 as int) == table_root,
        forall|i: int|
            0 <= i < old(blob).len() && !(SMP_BOOT_CODE_OFFSET_ENTRY <= i
                < SMP_BOOT_CODE_OFFSET_ENTRY + 8) && !(SMP_BOOT_CODE_OFFSET_PML4 <= i
                < SMP_BOOT_CODE_OFFSET_PML4 + 4) ==> final(blob)[i] == old(blob)[i],
{
    write_u64_le(blob, SMP_BOOT_CODE_OFFSET_ENTRY, entry);
    write_u32_le(blob, SMP_BOOT_CODE_OFFSET_PML4, table_root);
}

/// Patches the per-core fields into the blob just before one core is
/// signalled: its identifier and a fresh stack top. Nothing else of the
/// blob changes.
pub fn patch_boot_code_cpu(blob: &mut Vec<u8>, cpu_id: u32, stack_top: u64)
    requires
        old(blob).len() >= 0x20,
    ensures
        final(blob).len() == old(blob).len(),
        le32(final(blob)@, SMP_BOOT_CODE_OFFSET_CPU_ID as int) == cpu_id,
        le64(final(blob)@, SMP_BOOT_CODE_OFFSET_STACK as int) == stack_top,
        forall|i: int|
            0 <= i < old(blob).len() && !(SMP_BOOT_CODE_OFFSET_CPU_ID <= i
                < SMP_BOOT_CODE_OFFSET_CPU_ID + 4) && !(SMP_BOOT_CODE_OFFSET_STACK <= i
                < SMP_BOOT_CODE_OFFSET_STACK + 8) ==> final(blob)[i] == old(blob)[i],
{
    write_u32_le(blob, SMP_BOOT_CODE_OFFSET_CPU_ID, cpu_id);
    write_u64_le(blob, SMP_BOOT_CODE_OFFSET_STACK, stack_top);
}

/// The page number that the start-up inter-processor interrupt encodes: the
/// blob's physical address in whole pages.
pub fn boot_code_page(address: u64) -> (r: u8)
    requires
        address % 4096 == 0,
        address < 0x100000,
    ensures
        r == address / 4096,
{
    (address / 4096) as u8
}

/// The bring-up handshake counters: how many secondary cores the primary
/// has signalled, and how many have reported themselves alive by their
/// first instruction. Shared without a lock by design — a fresh core owns
/// no stack yet — so only single increments ever touch it.
pub struct BringUp {
    pub requested: u64,
    pub booted: u64,
}

impl BringUp {
    /// The counter invariant: cores can only boot after being asked, so the
    /// booted count never exceeds the requested count.
    pub open spec fn wf(self) -> bool {
        self.booted <= self.requested
    }

    /// Before any core is signalled.
    pub fn new() -> (r: BringUp)
        ensures
            r.wf(),
            r.requested == 0,
            r.booted == 0,
    {
        BringUp { requested: 0, booted: 0 }
    }

    /// The primary core records that it has signalled one more core.
    pub fn request_core(&mut self)
        requires
            old(self).wf(),
            old(self).requested < u64::MAX,
        ensures
            final(self).wf(),
            final(self).requested == old(self).requested + 1,
            final(self).booted == old(self).booted,
    {
        self.requested = self.requested + 1;
    }

    /// A secondary core's first instruction: it reports itself alive. Only a
    /// signalled core ever runs, so a report without an outstanding request
    /// cannot happen.
    pub fn report_alive(&mut self)
        requires
            old(self).wf(),
            old(self).booted < old(self).requested,
        ensures
            final(self).wf(),
            final(self).booted == old(self).booted + 1,
            final(self).requested == old(self).requested,
    {
        self.booted = self.booted + 1;
    }

    /// What the primary core busy-waits on: bring-up is complete exactly
    /// when every signalled core has reported itself alive.
    pub fn is_complete(&self) -> (r: bool)
        requires
            self.wf(),
        ensures
            r == (self.booted == self.requested),
    {
        self.booted == self.requested
    }
}

} // verus!
