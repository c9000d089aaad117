//! Execution substrate of a small multi-core kernel, modelled as verified
//! data structures: physical-frame allocation, page-table construction,
//! per-core interrupt routing, secondary-core bring-up bookkeeping, and a
//! round-robin thread scheduler, together with the plain-data logic of the
//! surrounding drivers (virtqueues, MBR, FAT16, the text console).

pub mod frame;
pub mod system;
pub mod paging;
pub mod cpu;
pub mod thread;
pub mod bytes;
pub mod elf;
pub mod process;
pub mod scheduler;
pub mod smp;
pub mod virtio;
pub mod mbr;
pub mod pci;
pub mod vfat;
pub mod console;
pub mod keyboard;
pub mod syscall;

pub use frame::FrameAllocator;
