//! Per-core state and interrupt routing: one `CpuData` block per core,
//! holding the core's identifier, its descriptor-table selectors and the
//! table of dynamically registered interrupt handlers (vectors 64..=239).
//! Vectors below 64 are CPU exceptions; 240..=242 are the fixed
//! local-interrupt-controller vectors.

use vstd::prelude::*;

verus! {

/// First vector that external-controller interrupts are redirected to.
pub const IOAPIC_INTERRUPT_OFFSET: u8 = 32;

/// Vector of the keyboard input line.
pub const KEYBOARD_INTERRUPT_INDEX: u8 = 33;

/// First vector available for dynamic registration.
pub const FIRST_DYNAMIC_VECTOR: u8 = 64;

/// Number of dynamically assignable vectors: 64..=239.
pub const DYNAMIC_VECTORS: u8 = 176;

/// Spurious local-interrupt-controller vector.
pub const SPURIOUS_INTERRUPT_INDEX: u8 = 240;

/// Timer vector: drives preemption.
pub const TIMER_INTERRUPT_INDEX: u8 = 241;

/// Local-interrupt-controller error vector: fatal.
pub const ERROR_INTERRUPT_INDEX: u8 = 242;

/// The segment selector values one core installed at boot.
#[derive(Clone, Copy, PartialEq, Eq, Structural, Debug)]
pub struct Selectors {
    pub code: u16,
    pub data: u16,
    pub tss: u16,
    pub user_data: u16,
    pub user_code: u16,
}

/// One core's table of dynamically registered interrupt handlers. A handler
/// is carried as an opaque token that the surrounding runtime resolves to
/// the actual callback; slot `i` serves vector `64 + i`.
pub struct Interrupts {
    pub handlers: Vec<Option<u64>>,
}

impl Interrupts {
    /// The table always holds one slot per dynamic vector.
    pub open spec fn wf(self) -> bool {
        self.handlers.len() == DYNAMIC_VECTORS
    }

    /// A table with every slot unused.
    pub fn new() -> (r: Interrupts)
        ensures
            r.wf(),
            forall|i: int| 0 <= i < DYNAMIC_VECTORS ==> r.handlers[i] is None,
    {
        let mut handlers: Vec<Option<u64>> = Vec::new();
        let mut i: usize = 0;
        while i < DYNAMIC_VECTORS as usize
            invariant
                i <= DYNAMIC_VECTORS,
                handlers.len() == i,
                forall|j: int| 0 <= j < i ==> handlers[j] is None,
            decreases DYNAMIC_VECTORS - i,
        {
            handlers.push(None);
            i = i + 1;
        }
        Interrupts { handlers }
    }

    /// Installs a handler in the first unused slot and returns the vector
    /// number to program into the device; `None` when every slot is in use.
    pub fn request_irq_handler(&mut self, handler: u64) -> (r: Option<u8>)
        requires
            old(self).wf(),
        ensures
            final(self).wf(),
            match r {
                Some(v) => {
                    &&& FIRST_DYNAMIC_VECTOR <= v < FIRST_DYNAMIC_VECTOR + DYNAMIC_VECTORS
                    &&& old(self).handlers[v - FIRST_DYNAMIC_VECTOR] is None
                    &&& forall|j: int|
                        0 <= j < v - FIRST_DYNAMIC_VECTOR ==> old(self).handlers[j] is Some
                    &&& final(self).handlers@ == old(self).handlers@.update(
                        v - FIRST_DYNAMIC_VECTOR,
                        Some(handler),
                    )
                },
                None => {
                    &&& forall|j: int| 0 <= j < DYNAMIC_VECTORS ==> old(self).handlers[j] is Some
                    &&& final(self).handlers@ == old(self).handlers@
                },
            },
    {
        let mut i: usize = 0;
        while i < DYNAMIC_VECTORS as usize
            invariant
                old(self).wf(),
                *self == *old(self),
                i <= DYNAMIC_VECTORS,
                forall|j: int| 0 <= j < i ==> old(self).handlers[j] is Some,
            decreases DYNAMIC_VECTORS - i,
        {
            if self.handlers[i].is_none() {
                self.handlers[i] = Some(handler);
                proof {
                    assert(final(self).handlers@ == old(self).handlers@.update(
                        i as int,
                        Some(handler),
                    ));
                }
                return Some(FIRST_DYNAMIC_VECTOR + i as u8);
            }
            i = i + 1;
        }
        None
    }

    /// The handler registered for a vector: the slot's token for a dynamic
    /// vector, `None` for every other vector and for an unused slot — a
    /// vector with no registered callback is a silent no-op, since spurious
    /// delivery is expected hardware behavior.
    pub fn handler_for(&self, vector: u8) -> (r: Option<u64>)
        requires
            self.wf(),
        ensures
            r == (if FIRST_DYNAMIC_VECTOR <= vector < FIRST_DYNAMIC_VECTOR + DYNAMIC_VECTORS {
                self.handlers[vector - FIRST_DYNAMIC_VECTOR]
            } else {
                None::<u64>
            }),
    {
        if FIRST_DYNAMIC_VECTOR <= vector && vector < 240 {
            self.handlers[(vector - FIRST_DYNAMIC_VECTOR) as usize]
        } else {
            None
        }
    }
}

/// One block of core-local state, allocated once per core at boot and never
/// freed; each core reads only its own instance, so no locking is needed.
pub struct CpuData {
    pub id: u32,
    pub interrupts: Interrupts,
    pub selectors: Selectors,
}

impl CpuData {
    /// The per-core block a core installs for itself at boot: its id, its
    /// selectors, and an interrupt table with every slot unused.
    pub fn new(id: u32, selectors: Selectors) -> (r: CpuData)
        ensures
            r.id == id,
            r.selectors == selectors,
            r.interrupts.wf(),
            forall|i: int| 0 <= i < DYNAMIC_VECTORS ==> r.interrupts.handlers[i] is None,
    {
        CpuData { id, interrupts: Interrupts::new(), selectors }
    }
}

} // verus!
