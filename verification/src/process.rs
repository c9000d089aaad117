//! Processes and threads: a process owns at most one address space (the
//! bootstrap kernel thread's process owns none and runs in the kernel's own
//! table); a thread owns its process, its stack mapping, and its saved CPU
//! state. Loading a program image builds the image, maps it
//! executable+writable+user-accessible at the fixed user base, and records
//! the entry point.

use vstd::prelude::*;

use crate::elf::{build_image, spec_entry, spec_image_pages, spec_loadable, LoadError};
use crate::frame::{FrameAllocator, PAGE_SIZE};
use crate::paging::{spec_map_accepts, spec_map_applied, AddressSpace};
use crate::system::{MemoryFlags, MemoryMapError};
use crate::thread::{spec_resume, Resume, ThreadState};
use crate::cpu::Selectors;

verus! {

/// The fixed user-space base address a program image is mapped at.
pub const PROCESS_ADDR: u64 = 0x9_0000_0000;

/// The fixed virtual base address of a thread's stack mapping.
pub const STACK_ADDR: u64 = 0x10_0000_0000;

/// The size of one thread's stack.
pub const STACK_SIZE: u64 = 10 * 1024 * 1024;

/// Why starting a program failed.
#[derive(Clone, Copy, PartialEq, Eq, Structural, Debug)]
pub enum ProcessError {
    /// The image itself was rejected.
    Image(LoadError),
    /// Mapping the image into the address space was rejected.
    Mapping(MemoryMapError),
}

/// A process: the entry point of its program and the address space it owns.
/// The kernel's own bootstrap process owns no table of its own.
pub struct Process {
    pub entry_point: u64,
    pub page_table: Option<AddressSpace>,
}

impl Process {
    /// The process is either table-less or owns a well-formed table.
    pub open spec fn wf(self) -> bool {
        self.page_table matches Some(pt) ==> pt.wf()
    }

    /// The bootstrap process: no address space of its own.
    pub fn empty() -> (r: Process)
        ensures
            r.entry_point == 0,
            r.page_table is None,
            r.wf(),
    {
        Process { entry_point: 0, page_table: None }
    }

    /// A process with a fresh address space derived from the kernel's: the
    /// new table starts with exactly the kernel's mappings.
    pub fn new(kernel_space: &AddressSpace, alloc: FrameAllocator) -> (r: Process)
        requires
            kernel_space.wf(),
            alloc.wf(),
            alloc.spec_next() < alloc.spec_end(),
        ensures
            r.entry_point == 0,
            r.wf(),
            r.page_table matches Some(pt) && forall|w: u64| #[trigger]
                pt.lookup(w) == kernel_space.lookup(w),
    {
        Process { entry_point: 0, page_table: Some(kernel_space.clone_shallow(alloc)) }
    }

    /// Loads a program image: builds the image from the file bytes, maps it
    /// executable+writable+user-accessible at the fixed user base (the
    /// image's bytes are to be placed at physical address `image_phys`),
    /// records the entry point, and hands the image bytes back for placing.
    pub fn load(&mut self, data: &[u8], image_phys: u64) -> (r: Result<Vec<u8>, ProcessError>)
        requires
            old(self).page_table is Some,
            old(self).wf(),
            image_phys % PAGE_SIZE == 0,
            spec_loadable(data@) ==> {
                &&& image_phys + spec_image_pages(data@) * PAGE_SIZE <= 0x10_0000_0000_0000
                &&& PROCESS_ADDR + spec_image_pages(data@) * PAGE_SIZE <= 0x8000_0000_0000
                &&& spec_entry(data@) + PROCESS_ADDR <= u64::MAX
                &&& old(self).page_table matches Some(pt) && pt.alloc.spec_end()
                    - pt.alloc.spec_next() >= 3 * PAGE_SIZE * spec_image_pages(data@)
            },
        ensures
            final(self).wf(),
            final(self).page_table is Some,
            match r {
                Ok(bytes) => {
                    &&& spec_loadable(data@)
                    &&& bytes.len() == spec_image_pages(data@) * PAGE_SIZE
                    &&& final(self).entry_point == PROCESS_ADDR + spec_entry(data@)
                    &&& (old(self).page_table matches Some(pre) && final(self).page_table
                        matches Some(post) && spec_map_applied(
                        pre,
                        post,
                        image_phys,
                        PROCESS_ADDR,
                        (spec_image_pages(data@) * PAGE_SIZE) as u64,
                        MemoryFlags { writable: true, executable: true, user: true },
                    ))
                },
                Err(ProcessError::Image(e)) => {
                    &&& !spec_loadable(data@)
                    &&& *final(self) == *old(self)
                },
                Err(ProcessError::Mapping(e)) => {
                    &&& spec_loadable(data@)
                    &&& *final(self) == *old(self)
                    &&& (old(self).page_table matches Some(pre) && !spec_map_accepts(
                        pre,
                        image_phys,
                        PROCESS_ADDR,
                        (spec_image_pages(data@) * PAGE_SIZE) as u64,
                        MemoryFlags { writable: true, executable: true, user: true },
                    ))
                },
            },
    {
        let flags = MemoryFlags { writable: true, executable: true, user: true };
        let img = match build_image(data, PROCESS_ADDR) {
            Ok(img) => img,
            Err(e) => {
                return Err(ProcessError::Image(e));
            },
        };
        let length = img.pages * PAGE_SIZE;
        match &mut self.page_table {
            Some(pt) => {
                let res = pt.map(image_phys, PROCESS_ADDR, length, flags);
                match res {
                    Ok(()) => {},
                    Err(e) => {
                        return Err(ProcessError::Mapping(e));
                    },
                }
            },
            None => {
                proof {
                    assert(false);
                }
            },
        }
        self.entry_point = PROCESS_ADDR + img.entry_offset;
        Ok(img.bytes)
    }
}

/// A thread: its name, the process it belongs to, and its CPU state.
pub struct Thread {
    pub name: String,
    pub process: Process,
    pub state: ThreadState,
}

impl Thread {
    /// The thread and the process it owns are well-formed.
    pub open spec fn wf(self) -> bool {
        self.process.wf()
    }

    /// The bootstrap thread of the currently running kernel: it is already
    /// executing, so its recorded start state is never entered.
    pub fn new_current(process: Process) -> (r: Thread)
        requires
            process.wf(),
        ensures
            r.name@ == "kernel"@,
            r.process == process,
            r.state == ThreadState::Starting(0, 0),
            r.wf(),
    {
        Thread { name: "kernel".to_owned(), process, state: ThreadState::Starting(0, 0) }
    }

    /// A new thread of `process`: maps a dedicated stack (whose backing
    /// memory lives at physical address `stack_phys`) writable and
    /// user-accessible at the fixed stack base, and starts at the process's
    /// entry point with the stack top as its stack pointer.
    pub fn new(process: Process, name: String, stack_phys: u64) -> (r: Result<
        Thread,
        MemoryMapError,
    >)
        requires
            process.page_table is Some,
            process.wf(),
            stack_phys + STACK_SIZE <= 0x10_0000_0000_0000,
            process.page_table matches Some(pt) ==> pt.alloc.spec_end() - pt.alloc.spec_next()
                >= 3 * PAGE_SIZE * 2560,
        ensures
            match r {
                Ok(t) => {
                    &&& t.wf()
                    &&& t.name == name
                    &&& t.state == ThreadState::Starting(
                        process.entry_point,
                        (STACK_ADDR + STACK_SIZE) as u64,
                    )
                    &&& t.process.entry_point == process.entry_point
                    &&& (process.page_table matches Some(pre) && t.process.page_table
                        matches Some(post) && spec_map_applied(
                        pre,
                        post,
                        stack_phys,
                        STACK_ADDR,
                        STACK_SIZE,
                        MemoryFlags { writable: true, executable: false, user: true },
                    ))
                },
                Err(e) => {
                    &&& (stack_phys % PAGE_SIZE != 0 || (process.page_table matches Some(pre)
                        && !spec_map_accepts(
                        pre,
                        stack_phys,
                        STACK_ADDR,
                        STACK_SIZE,
                        MemoryFlags { writable: true, executable: false, user: true },
                    )))
                    &&& (stack_phys % PAGE_SIZE != 0 ==> e == MemoryMapError::InvalidAlignment(
                        stack_phys,
                    ))
                },
            },
    {
        let mut process = process;
        let flags = MemoryFlags { writable: true, executable: false, user: true };
        match &mut process.page_table {
            Some(pt) => {
                proof {
                    assert(2560 == crate::paging::spec_page_count(STACK_SIZE));
                }
                let res = pt.map(stack_phys, STACK_ADDR, STACK_SIZE, flags);
                match res {
                    Ok(()) => {},
                    Err(e) => {
                        return Err(e);
                    },
                }
            },
            None => {
                proof {
                    assert(false);
                }
            },
        }
        let entry = process.entry_point;
        let state = ThreadState::new(entry, STACK_ADDR + STACK_SIZE);
        Ok(Thread { name, process, state })
    }

    /// What entering this thread requires of the switch routine: which
    /// address-space root to install (none for a thread of the kernel's own
    /// table) and which CPU state to restore. The install must invalidate
    /// the core's cached translations before the state is entered.
    pub fn activate(&self, selectors: &Selectors) -> (r: (Option<u64>, Resume))
        requires
            self.wf(),
        ensures
            r.0 == (match self.process.page_table {
                Some(pt) => Some(pt.spec_root_phys()),
                None => None::<u64>,
            }),
            r.1 == spec_resume(self.state, *selectors),
    {
        let root = match &self.process.page_table {
            Some(pt) => Some(pt.root_phys()),
            None => None,
        };
        (root, self.state.activate(selectors))
    }
}

} // verus!
