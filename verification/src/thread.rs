//! Thread CPU state: the saved register snapshot of a preempted thread, the
//! tagged thread state (`Starting` before first run, `Saved` afterwards),
//! and what the switch routine restores when a thread is entered.

use vstd::prelude::*;

use crate::cpu::Selectors;

verus! {

/// The flags value a fresh thread starts with: interrupts enabled.
pub const STACK_FRAME_INTERRUPT_FLAG: u64 = 0x200;

/// The frame the return-from-interrupt instruction consumes to enter a
/// thread: where to continue, on which stack, in which segments.
#[derive(Clone, Copy, PartialEq, Eq, Structural, Debug)]
pub struct StackFrame {
    pub instruction_pointer: u64,
    pub stack_pointer: u64,
    pub code_segment: u64,
    pub stack_segment: u64,
    pub cpu_flags: u64,
}

/// A full general-purpose register snapshot of a preempted thread, together
/// with the interrupt stack frame that the preemption pushed.
#[derive(Clone, Copy, PartialEq, Eq, Structural, Debug)]
pub struct Context {
    pub rbp: u64,
    pub rax: u64,
    pub rbx: u64,
    pub rcx: u64,
    pub rdx: u64,
    pub rsi: u64,
    pub rdi: u64,
    pub r8: u64,
    pub r9: u64,
    pub r10: u64,
    pub r11: u64,
    pub r12: u64,
    pub r13: u64,
    pub r14: u64,
    pub r15: u64,
    pub stack_frame: StackFrame,
}

/// A thread's execution state: `Starting(entry, stack top)` before it first
/// runs, `Saved(snapshot)` once it has been preempted. A thread never
/// returns to `Starting`.
#[derive(Clone, Copy, PartialEq, Eq, Structural, Debug)]
pub enum ThreadState {
    Starting(u64, u64),
    Saved(Context),
}

/// What the switch routine performs to enter a thread: build a fresh frame
/// for a thread that has never run, or restore the saved snapshot of a
/// preempted one.
#[derive(Clone, Copy, PartialEq, Eq, Structural, Debug)]
pub enum Resume {
    Start(StackFrame),
    Restore(Context),
}

/// Saving a preempted thread always yields `Saved`, whatever it was before.
pub open spec fn spec_save(s: ThreadState, ctx: Context) -> ThreadState {
    ThreadState::Saved(ctx)
}

/// What entering a thread in state `s` does, with the current core's
/// selectors for a first entry.
pub open spec fn spec_resume(s: ThreadState, selectors: Selectors) -> Resume {
    match s {
        ThreadState::Starting(ip, sp) => Resume::Start(
            StackFrame {
                instruction_pointer: ip,
                stack_pointer: sp,
                code_segment: selectors.user_code as u64,
                stack_segment: selectors.user_data as u64,
                cpu_flags: STACK_FRAME_INTERRUPT_FLAG,
            },
        ),
        ThreadState::Saved(ctx) => Resume::Restore(ctx),
    }
}

impl ThreadState {
    /// The state of a thread that has not run yet.
    pub fn new(ip: u64, sp: u64) -> (r: ThreadState)
        ensures
            r == ThreadState::Starting(ip, sp),
    {
        ThreadState::Starting(ip, sp)
    }

    /// Records the snapshot of a preemption: the thread is `Saved` from now
    /// on. Only the switch routine calls this, and only while the thread is
    /// not the one executing.
    pub fn save(&mut self, ctx: Context)
        ensures
            *final(self) == spec_save(*old(self), ctx),
    {
        *self = ThreadState::Saved(ctx);
    }

    /// What the switch routine must perform to enter this thread.
    pub fn activate(&self, selectors: &Selectors) -> (r: Resume)
        ensures
            r == spec_resume(*self, *selectors),
    {
        match self {
            ThreadState::Saved(ctx) => Resume::Restore(*ctx),
            ThreadState::Starting(ip, sp) => Resume::Start(
                StackFrame {
                    instruction_pointer: *ip,
                    stack_pointer: *sp,
                    code_segment: selectors.user_code as u64,
                    stack_segment: selectors.user_data as u64,
                    cpu_flags: STACK_FRAME_INTERRUPT_FLAG,
                },
            ),
        }
    }
}

/// State preservation: a thread preempted with snapshot `ctx` and later
/// resumed gets back exactly `ctx` — save followed by restore is the
/// identity on the saved state, whatever the thread's earlier state was.
pub proof fn lemma_save_restore_identity(s: ThreadState, ctx: Context, selectors: Selectors)
    ensures
        spec_resume(spec_save(s, ctx), selectors) == Resume::Restore(ctx),
{
}

} // verus!
