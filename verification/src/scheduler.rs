//! The per-core scheduler: an ordered collection of threads and the index of
//! the one currently running. Switching advances the index round-robin,
//! installs the chosen thread's address space and restores its CPU state;
//! preemption saves the interrupted context into the current thread's slot.

use vstd::prelude::*;

use crate::cpu::Selectors;
use crate::process::Thread;
use crate::thread::{spec_resume, spec_save, Context, Resume};

verus! {

/// The index the round-robin advance picks after `cur` among `n` threads.
pub open spec fn spec_next_index(cur: int, n: int) -> int {
    (cur + 1) % n
}

/// The index the scheduler runs `steps` advances after starting at `cur`.
pub open spec fn spec_index_after(cur: int, n: int, steps: int) -> int {
    (cur + steps) % n
}

/// One core's scheduler state.
pub struct Scheduler {
    pub threads: Vec<Thread>,
    pub cur_thread: usize,
}

impl Scheduler {
    /// The collection always holds at least the bootstrap kernel thread, and
    /// the running index is always valid.
    pub open spec fn wf(self) -> bool {
        &&& self.threads.len() >= 1
        &&& self.spec_cur() < self.threads.len()
        &&& forall|i: int| 0 <= i < self.threads.len() ==> (#[trigger] self.threads[i]).wf()
    }

    /// The index of the currently running thread.
    pub open spec fn spec_cur(self) -> int {
        self.cur_thread as int
    }

    /// A scheduler holding only the bootstrap thread, which is the one
    /// running.
    pub fn new(bootstrap: Thread) -> (r: Scheduler)
        requires
            bootstrap.wf(),
        ensures
            r.wf(),
            r.threads.len() == 1,
            r.threads[0] == bootstrap,
            r.spec_cur() == 0,
    {
        let mut threads: Vec<Thread> = Vec::new();
        threads.push(bootstrap);
        Scheduler { threads, cur_thread: 0 }
    }

    /// Registers one more thread at the end of the collection; the running
    /// index is untouched.
    pub fn add_thread(&mut self, thread: Thread)
        requires
            old(self).wf(),
            thread.wf(),
        ensures
            final(self).wf(),
            final(self).threads.len() == old(self).threads.len() + 1,
            final(self).threads[old(self).threads.len() as int] == thread,
            forall|i: int|
                0 <= i < old(self).threads.len() ==> final(self).threads[i] == old(
                self,
                ).threads[i],
            final(self).spec_cur() == old(self).spec_cur(),
    {
        self.threads.push(thread);
    }

    /// The number of registered threads.
    pub fn thread_count(&self) -> (r: usize)
        ensures
            r == self.threads.len(),
    {
        self.threads.len()
    }

    /// Saves the interrupted context into the currently running thread's
    /// slot: the transition to `Saved` on preemption. No other thread is
    /// touched.
    pub fn save_current(&mut self, ctx: Context)
        requires
            old(self).wf(),
        ensures
            final(self).wf(),
            final(self).spec_cur() == old(self).spec_cur(),
            final(self).threads.len() == old(self).threads.len(),
            final(self).threads[old(self).spec_cur()].state == spec_save(
                old(self).threads[old(self).spec_cur()].state,
                ctx,
            ),
            final(self).threads[old(self).spec_cur()].name == old(self).threads[old(
                self,
            ).spec_cur()].name,
            final(self).threads[old(self).spec_cur()].process == old(self).threads[old(
                self,
            ).spec_cur()].process,
            forall|i: int|
                0 <= i < old(self).threads.len() && i != old(self).spec_cur()
                    ==> final(self).threads[i] == old(self).threads[i],
    {
        let cur = self.cur_thread;
        let t = &mut self.threads[cur];
        t.state.save(ctx);
    }

    /// Advances the running index round-robin and reports what entering the
    /// chosen thread takes: the address-space root to install (none for a
    /// thread of the kernel's own table) and the CPU state to restore. The
    /// caller performs both; control then transfers into the thread and this
    /// call never returns to it.
    pub fn run_next(&mut self, selectors: &Selectors) -> (r: (Option<u64>, Resume))
        requires
            old(self).wf(),
        ensures
            final(self).wf(),
            final(self).threads == old(self).threads,
            final(self).spec_cur() == spec_next_index(
                old(self).spec_cur(),
                old(self).threads.len() as int,
            ),
            r.0 == (match final(self).threads[final(self).spec_cur()].process.page_table {
                Some(pt) => Some(pt.spec_root_phys()),
                None => None::<u64>,
            }),
            r.1 == spec_resume(final(self).threads[final(self).spec_cur()].state, *selectors),
    {
        let len = self.threads.len();
        self.cur_thread = (self.cur_thread + 1) % len;
        let t = &self.threads[self.cur_thread];
        t.activate(selectors)
    }
}

/// Advancing one step more moves the selected index from `steps` to
/// `steps + 1` advances past the starting point.
pub proof fn lemma_advance_composes(cur: int, n: int, steps: int)
    requires
        0 <= cur < n,
        0 <= steps,
    ensures
        spec_next_index(spec_index_after(cur, n, steps), n) == spec_index_after(
            cur,
            n,
            steps + 1,
        ),
{
    vstd::arithmetic::div_mod::lemma_add_mod_noop((cur + steps) % n, 1, n);
    vstd::arithmetic::div_mod::lemma_mod_twice(cur + steps, n);
    vstd::arithmetic::div_mod::lemma_add_mod_noop(cur + steps, 1, n);
    vstd::arithmetic::div_mod::lemma_mod_twice(1, n);
}

/// Thread index `t` is selected by one of the first `n` advances after
/// starting at `cur`.
pub open spec fn spec_selected_within(cur: int, n: int, t: int) -> bool {
    exists|s: int| 1 <= s <= n && #[trigger] spec_index_after(cur, n, s) == t
}

/// Round-robin fairness: starting anywhere among `n` threads, the `n`
/// consecutive advances select every thread index exactly once — each index
/// is hit by some advance, and no two advances hit the same index.
pub proof fn lemma_round_robin_fair(cur: int, n: int)
    requires
        0 <= cur < n,
    ensures
        forall|t: int| 0 <= t < n ==> #[trigger] spec_selected_within(cur, n, t),
        forall|s1: int, s2: int|
            1 <= s1 <= n && 1 <= s2 <= n && #[trigger] spec_index_after(cur, n, s1)
                == #[trigger] spec_index_after(cur, n, s2) ==> s1 == s2,
{
    assert forall|t: int| 0 <= t < n implies #[trigger] spec_selected_within(cur, n, t) by {
        if t > cur {
            let s = t - cur;
            vstd::arithmetic::div_mod::lemma_small_mod((cur + s) as nat, n as nat);
            assert(spec_index_after(cur, n, s) == t);
            assert(spec_selected_within(cur, n, t));
        } else {
            let s = t - cur + n;
            vstd::arithmetic::div_mod::lemma_mod_multiples_vanish(1, t, n);
            vstd::arithmetic::div_mod::lemma_small_mod(t as nat, n as nat);
            assert(spec_index_after(cur, n, s) == t);
            assert(spec_selected_within(cur, n, t));
        }
    }
    assert forall|s1: int, s2: int|
        1 <= s1 <= n && 1 <= s2 <= n && #[trigger] spec_index_after(cur, n, s1)
            == #[trigger] spec_index_after(cur, n, s2) implies s1 == s2 by {
        lemma_index_window(cur, n, s1);
        lemma_index_window(cur, n, s2);
    }
}

/// Within one full revolution the selected index determines the step: the
/// value `(cur + s) % n` for `s` in `1..=n` is `cur + s` or `cur + s - n`,
/// whichever lands in `0..n`.
proof fn lemma_index_window(cur: int, n: int, s: int)
    requires
        0 <= cur < n,
        1 <= s <= n,
    ensures
        cur + s < n ==> spec_index_after(cur, n, s) == cur + s,
        cur + s >= n ==> spec_index_after(cur, n, s) == cur + s - n,
{
    if cur + s < n {
        vstd::arithmetic::div_mod::lemma_small_mod((cur + s) as nat, n as nat);
    } else {
        vstd::arithmetic::div_mod::lemma_mod_multiples_vanish(1, cur + s - n, n);
        vstd::arithmetic::div_mod::lemma_small_mod((cur + s - n) as nat, n as nat);
    }
}

} // verus!
