//! Scenarios over the substrate core: frame allocation, address-space
//! mapping, interrupt-slot assignment, scheduling, thread state, and the
//! bring-up counters.

use ios_kernel::cpu::{CpuData, Interrupts, Selectors};
use ios_kernel::frame::FrameAllocator;
use ios_kernel::paging::AddressSpace;
use ios_kernel::process::{Process, Thread, PROCESS_ADDR, STACK_ADDR, STACK_SIZE};
use ios_kernel::scheduler::Scheduler;
use ios_kernel::smp::{
    boot_code_page, patch_boot_code_common, patch_boot_code_cpu, BringUp, SMP_BOOT_CODE_ADDRESS,
};
use ios_kernel::system::{allocator_usable, region_action, Framebuffer, MemoryFlags,
    MemoryMapError, RegionAction, RegionKind};
use ios_kernel::thread::{Context, Resume, StackFrame, ThreadState};

fn region_allocator() -> FrameAllocator {
    // plenty of frames for page tables
    FrameAllocator::new(0x100_0000, 0x500_0000, 0)
}

fn selectors() -> Selectors {
    Selectors { code: 8, data: 16, tss: 24, user_data: 35, user_code: 43 }
}

fn writable() -> MemoryFlags {
    MemoryFlags { writable: true, executable: false, user: false }
}

#[test]
fn frame_allocator_hands_out_aligned_monotonic_frames() {
    let mut alloc = FrameAllocator::new(0x10000, 0x13000, 0);
    assert!(alloc.has_frames());
    assert_eq!(alloc.allocate(), 0x10000);
    assert_eq!(alloc.allocate(), 0x11000);
    assert_eq!(alloc.allocate(), 0x12000);
    assert!(!alloc.has_frames());
}

#[test]
fn three_page_mapping_reads_back_and_conflicts_thereafter() {
    // request a 3-page mapping at physical 0x100000 to virtual 0x100000
    let mut space = AddressSpace::new(region_allocator());
    let r = space.map(0x100000, 0x100000, 3 * 4096, writable());
    assert!(r.is_ok());
    // activation installs the root frame; the mapping reads back
    let _root = space.root_phys();
    assert_eq!(space.translate(0x100000), Some((0x100000, writable())));
    assert_eq!(space.translate(0x101000), Some((0x101000, writable())));
    assert_eq!(space.translate(0x102000), Some((0x102000, writable())));
    assert_eq!(space.translate(0x103000), None);
    // a second call mapping virtual 0x100000 to another physical page fails
    let conflict = space.map(0x200000, 0x100000, 4096, writable());
    assert_eq!(conflict, Err(MemoryMapError::AlreadyMapped(0x100000, 0x200000)));
    // and fails the same way when retried
    let conflict_again = space.map(0x200000, 0x100000, 4096, writable());
    assert_eq!(conflict_again, Err(MemoryMapError::AlreadyMapped(0x100000, 0x200000)));
}

#[test]
fn identical_remap_succeeds_as_noop() {
    let mut space = AddressSpace::new(region_allocator());
    assert!(space.map(0x300000, 0x40000000, 2 * 4096, writable()).is_ok());
    let before0 = space.translate(0x40000000);
    let before1 = space.translate(0x40001000);
    // the exact same physical+virtual range with the exact same flags again
    assert!(space.map(0x300000, 0x40000000, 2 * 4096, writable()).is_ok());
    assert_eq!(space.translate(0x40000000), before0);
    assert_eq!(space.translate(0x40001000), before1);
}

#[test]
fn misaligned_addresses_are_rejected_without_mutation() {
    let mut space = AddressSpace::new(region_allocator());
    let r = space.map(0x100001, 0x200000, 4096, writable());
    assert_eq!(r, Err(MemoryMapError::InvalidAlignment(0x100001)));
    let r = space.map(0x100000, 0x200777, 4096, writable());
    assert_eq!(r, Err(MemoryMapError::InvalidAlignment(0x200777)));
    // no partial mutation happened: the targets are still unmapped
    assert_eq!(space.translate(0x200000), None);
    assert_eq!(space.translate(0x200777), None);
}

#[test]
fn shallow_clone_inherits_mappings_and_stays_independent() {
    let mut kernel = AddressSpace::new(region_allocator());
    assert!(kernel.map(0x100000, 0xffff_8000_0000_0000, 4096, writable()).is_ok());
    let mut derived = kernel.clone_shallow(FrameAllocator::new(0x600_0000, 0x900_0000, 0));
    assert_eq!(
        derived.translate(0xffff_8000_0000_0000),
        Some((0x100000, writable()))
    );
    assert_ne!(derived.root_phys(), kernel.root_phys());
    // a mapping added to the clone does not appear in the original
    assert!(derived.map(0x500000, 0x123000, 4096, writable()).is_ok());
    assert_eq!(kernel.translate(0x123000), None);
}

#[test]
fn irq_slots_fill_first_free_and_run_out_after_176() {
    let mut interrupts = Interrupts::new();
    for i in 0..176u64 {
        let vector = interrupts.request_irq_handler(i);
        assert_eq!(vector, Some(64 + i as u8));
    }
    // the 177th request finds no slot
    assert_eq!(interrupts.request_irq_handler(999), None);
    // dispatch finds the registered token; reserved vectors stay silent
    assert_eq!(interrupts.handler_for(64), Some(0));
    assert_eq!(interrupts.handler_for(239), Some(175));
    assert_eq!(interrupts.handler_for(63), None);
    assert_eq!(interrupts.handler_for(240), None);
}

#[test]
fn fresh_cpu_data_has_empty_slots() {
    let cpu = CpuData::new(3, selectors());
    assert_eq!(cpu.id, 3);
    assert_eq!(cpu.interrupts.handler_for(100), None);
}

#[test]
fn round_robin_runs_every_thread_once_per_cycle() {
    let bootstrap = Thread::new_current(Process::empty());
    let mut sched = Scheduler::new(bootstrap);
    sched.add_thread(Thread {
        name: String::from("one"),
        process: Process::empty(),
        state: ThreadState::Starting(0x1000, 0x2000),
    });
    sched.add_thread(Thread {
        name: String::from("two"),
        process: Process::empty(),
        state: ThreadState::Starting(0x3000, 0x4000),
    });
    assert_eq!(sched.thread_count(), 3);
    let sels = selectors();
    let mut seen = [false; 3];
    for _ in 0..3 {
        let _action = sched.run_next(&sels);
        let idx = sched.cur_thread;
        assert!(!seen[idx], "a thread ran twice within one cycle");
        seen[idx] = true;
    }
    assert!(seen.iter().all(|s| *s), "some thread never ran");
}

#[test]
fn preempted_thread_resumes_with_its_saved_context() {
    let ctx = Context {
        rbp: 1,
        rax: 2,
        rbx: 3,
        rcx: 4,
        rdx: 5,
        rsi: 6,
        rdi: 7,
        r8: 8,
        r9: 9,
        r10: 10,
        r11: 11,
        r12: 12,
        r13: 13,
        r14: 14,
        r15: 15,
        stack_frame: StackFrame {
            instruction_pointer: 0xdead0,
            stack_pointer: 0xbeef0,
            code_segment: 43,
            stack_segment: 35,
            cpu_flags: 0x200,
        },
    };
    let mut state = ThreadState::new(0x7000, 0x8000);
    state.save(ctx);
    // save then restore is the identity on the snapshot
    assert_eq!(state.activate(&selectors()), Resume::Restore(ctx));
}

#[test]
fn fresh_thread_enters_through_a_built_frame() {
    let state = ThreadState::new(0x7000, 0x8000);
    let sels = selectors();
    let resume = state.activate(&sels);
    assert_eq!(
        resume,
        Resume::Start(StackFrame {
            instruction_pointer: 0x7000,
            stack_pointer: 0x8000,
            code_segment: 43,
            stack_segment: 35,
            cpu_flags: 0x200,
        })
    );
}

#[test]
fn scheduler_saves_into_the_running_slot() {
    let bootstrap = Thread::new_current(Process::empty());
    let mut sched = Scheduler::new(bootstrap);
    let ctx = Context {
        rbp: 0,
        rax: 42,
        rbx: 0,
        rcx: 0,
        rdx: 0,
        rsi: 0,
        rdi: 0,
        r8: 0,
        r9: 0,
        r10: 0,
        r11: 0,
        r12: 0,
        r13: 0,
        r14: 0,
        r15: 0,
        stack_frame: StackFrame {
            instruction_pointer: 1,
            stack_pointer: 2,
            code_segment: 3,
            stack_segment: 4,
            cpu_flags: 5,
        },
    };
    sched.save_current(ctx);
    assert_eq!(sched.threads[0].state, ThreadState::Saved(ctx));
}

#[test]
fn bringup_counters_never_overtake_and_meet_at_the_end() {
    let mut counters = BringUp::new();
    assert!(counters.is_complete());
    counters.request_core();
    assert!(counters.booted <= counters.requested);
    assert!(!counters.is_complete());
    counters.report_alive();
    assert!(counters.booted <= counters.requested);
    assert!(counters.is_complete());
    counters.request_core();
    counters.request_core();
    assert!(counters.booted <= counters.requested);
    assert!(!counters.is_complete());
    counters.report_alive();
    counters.report_alive();
    assert!(counters.booted <= counters.requested);
    assert!(counters.is_complete());
    assert_eq!(counters.booted, counters.requested);
}

#[test]
fn boot_blob_patching_writes_the_four_fields() {
    let mut blob = vec![0xaau8; 64];
    patch_boot_code_common(&mut blob, 0xffff_8000_0010_2030, 0x11000);
    patch_boot_code_cpu(&mut blob, 2, 0xffff_8000_0400_0000);
    // entry point, little-endian, at 0x08
    assert_eq!(&blob[0x08..0x10], &[0x30u8, 0x20, 0x10, 0x00, 0x00, 0x80, 0xff, 0xff][..]);
    // core id at 0x10
    assert_eq!(&blob[0x10..0x14], &[2u8, 0, 0, 0][..]);
    // stack top at 0x14
    assert_eq!(&blob[0x14..0x1c], &[0u8, 0, 0, 4, 0, 0x80, 0xff, 0xff][..]);
    // page-table root at 0x1c
    assert_eq!(&blob[0x1c..0x20], &[0u8, 0x10, 1, 0][..]);
    // everything else untouched
    assert!(blob[0x20..].iter().all(|b| *b == 0xaa));
    assert!(blob[..0x08].iter().all(|b| *b == 0xaa));
    assert_eq!(boot_code_page(SMP_BOOT_CODE_ADDRESS), 8);
}

#[test]
fn program_load_maps_user_image_and_thread_stack() {
    let image = minimal_image();
    let kernel = AddressSpace::new(region_allocator());
    let mut process = Process::new(&kernel, FrameAllocator::new(0x1000_0000, 0x5000_0000, 0));
    let bytes = process
        .load(&image, 0x400000)
        .expect("the two-page image should load");
    assert_eq!(bytes.len(), 2 * 4096);
    assert_eq!(process.entry_point, PROCESS_ADDR + 0x1234);
    let user_flags = MemoryFlags { writable: true, executable: true, user: true };
    {
        let pt = process.page_table.as_ref().unwrap();
        assert_eq!(pt.translate(PROCESS_ADDR), Some((0x400000, user_flags)));
        assert_eq!(pt.translate(PROCESS_ADDR + 4096), Some((0x401000, user_flags)));
        assert_eq!(pt.translate(PROCESS_ADDR + 2 * 4096), None);
    }
    let thread = Thread::new(process, String::from("prog1"), 0x800000)
        .expect("the stack mapping should succeed");
    assert_eq!(
        thread.state,
        ThreadState::Starting(PROCESS_ADDR + 0x1234, STACK_ADDR + STACK_SIZE)
    );
    let stack_flags = MemoryFlags { writable: true, executable: false, user: true };
    let pt = thread.process.page_table.as_ref().unwrap();
    assert_eq!(pt.translate(STACK_ADDR), Some((0x800000, stack_flags)));
}

#[test]
fn memory_map_ranges_classify_as_designed() {
    assert!(allocator_usable(RegionKind::Conventional, 0x1001));
    assert!(allocator_usable(RegionKind::BootServicesData, 0x2000));
    assert!(!allocator_usable(RegionKind::Conventional, 0x1000));
    assert!(!allocator_usable(RegionKind::LoaderCode, 0x100000));
    let wx = MemoryFlags { writable: true, executable: true, user: false };
    let w = MemoryFlags { writable: true, executable: false, user: false };
    let x = MemoryFlags { writable: false, executable: true, user: false };
    let bare = MemoryFlags { writable: false, executable: false, user: false };
    assert_eq!(region_action(RegionKind::LoaderCode), RegionAction::MapWith(wx));
    assert_eq!(region_action(RegionKind::RuntimeServicesCode), RegionAction::MapWith(x));
    assert_eq!(region_action(RegionKind::Conventional), RegionAction::MapWith(w));
    assert_eq!(region_action(RegionKind::AcpiNonVolatile), RegionAction::MapWith(bare));
    assert_eq!(region_action(RegionKind::AcpiReclaim), RegionAction::Skip);
    assert_eq!(region_action(RegionKind::Other), RegionAction::Skip);
    assert_eq!(
        MemoryFlags::empty(),
        MemoryFlags { writable: false, executable: false, user: false }
    );
}

#[test]
fn framebuffer_descriptor_sizes_its_device_memory() {
    let fb = Framebuffer { width: 100, height: 50, stride: 120, bpp: 32, base: 0x8000_0000 };
    assert_eq!(fb.byte_len(), 50 * 120 * 4);
}

/// A minimal position-independent image: one loadable segment whose highest
/// byte ends at 0x2000, entry offset 0x1234.
fn minimal_image() -> Vec<u8> {
    let mut data = vec![0u8; 256];
    data[0] = 0x7f;
    data[1] = b'E';
    data[2] = b'L';
    data[3] = b'F';
    put64(&mut data, 24, 0x1234); // entry
    put64(&mut data, 32, 64); // phoff
    put16(&mut data, 54, 56); // phentsize
    put16(&mut data, 56, 1); // phnum
    // program header 0: PT_LOAD
    put32(&mut data, 64, 1); // type
    put64(&mut data, 64 + 8, 128); // file offset
    put64(&mut data, 64 + 16, 0x1000); // vaddr
    put64(&mut data, 64 + 32, 8); // filesz
    put64(&mut data, 64 + 40, 0x1000); // memsz: ends at 0x2000
    for k in 0..8 {
        data[128 + k] = 0xc0 + k as u8;
    }
    data
}

fn put16(b: &mut [u8], off: usize, v: u16) {
    b[off..off + 2].copy_from_slice(&v.to_le_bytes());
}

fn put32(b: &mut [u8], off: usize, v: u32) {
    b[off..off + 4].copy_from_slice(&v.to_le_bytes());
}

fn put64(b: &mut [u8], off: usize, v: u64) {
    b[off..off + 8].copy_from_slice(&v.to_le_bytes());
}
