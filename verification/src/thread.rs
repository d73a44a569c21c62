//! Threads and the cooperative scheduler.
//!
//! A thread is a saved register context plus an exclusively owned stack
//! carved out of the heap. The scheduler keeps a FIFO ready queue of
//! thread identifiers (indices into whatever table owns the thread
//! objects) and a designated idle thread that runs whenever the queue is
//! empty and is itself never enqueued. Control moves between threads only
//! through `yield_current`; there is no preemption and no thread teardown.
//! A thread must not return from its entry function: it either yields
//! forever or halts the machine. A thread that stops yielding is never
//! re-enqueued and so is permanently retired from scheduling.
//!
//! The context switch itself — saving one context's callee-preserved
//! registers and stack pointer and restoring another's — is an
//! architecture primitive that lives outside this crate. What is modelled
//! here is its scheduler-visible effect: the change of the current-thread
//! slot that the primitive maintains alongside the register transfer.

use vstd::prelude::*;
use std::collections::VecDeque;
use crate::heap::{spec_allocate, spec_size_align, Allocator};
use crate::utils::is_power_of_two;

verus! {

/// Bytes of stack every thread gets.
pub const STACK_SIZE: usize = 0x10_0000;

/// The callee-preserved register set that survives a cooperative switch,
/// plus the link register and stack pointer that direct where execution
/// resumes.
pub struct ThreadContext {
    pub x19: u64,
    pub x20: u64,
    pub x21: u64,
    pub x22: u64,
    pub x23: u64,
    pub x24: u64,
    pub x25: u64,
    pub x26: u64,
    pub x27: u64,
    pub x28: u64,
    pub x29: u64,
    pub lr: u64,
    pub sp: u64,
}

/// All general registers zero and nowhere to resume: the context a thread
/// table starts from.
impl Default for ThreadContext {
    fn default() -> (r: ThreadContext)
        ensures
            r.x19 == 0 && r.x20 == 0 && r.x21 == 0 && r.x22 == 0 && r.x23 == 0 && r.x24 == 0
                && r.x25 == 0 && r.x26 == 0 && r.x27 == 0 && r.x28 == 0 && r.x29 == 0,
            r.lr == 0,
            r.sp == 0,
    {
        ThreadContext {
            x19: 0,
            x20: 0,
            x21: 0,
            x22: 0,
            x23: 0,
            x24: 0,
            x25: 0,
            x26: 0,
            x27: 0,
            x28: 0,
            x29: 0,
            lr: 0,
            sp: 0,
        }
    }
}

impl ThreadContext {
    /// The context a thread that has never run needs: resume at `func`
    /// with an empty call stack whose top is `stack`.
    pub fn new(func: u64, stack: u64) -> (r: ThreadContext)
        ensures
            r.lr == func,
            r.sp == stack,
            r.x19 == 0 && r.x20 == 0 && r.x21 == 0 && r.x22 == 0 && r.x23 == 0 && r.x24 == 0
                && r.x25 == 0 && r.x26 == 0 && r.x27 == 0 && r.x28 == 0 && r.x29 == 0,
    {
        ThreadContext {
            x19: 0,
            x20: 0,
            x21: 0,
            x22: 0,
            x23: 0,
            x24: 0,
            x25: 0,
            x26: 0,
            x27: 0,
            x28: 0,
            x29: 0,
            lr: func,
            sp: stack,
        }
    }
}

/// The per-core slot that names the thread whose context is live on the
/// CPU. The architecture keeps it in a system register; the context-switch
/// primitive updates it on every hand-off.
pub struct Cpu {
    current: usize,
}

impl Cpu {
    /// The identifier of the thread currently executing.
    pub closed spec fn current_spec(&self) -> usize {
        self.current
    }

    /// A fresh core slot; `Thread::start_with` must install the first real
    /// thread before the slot is consulted.
    pub fn new() -> (r: Cpu)
        ensures
            r.current_spec() == 0,
    {
        Cpu { current: 0 }
    }
}

/// A schedulable execution context: an exclusively owned stack region
/// obtained from the heap, and the saved register state.
pub struct Thread {
    pub stack_addr: usize,
    pub stack_size: usize,
    pub context: ThreadContext,
}

impl Thread {
    /// Creates a thread that will start executing at `func`: its stack is
    /// a fresh `STACK_SIZE`-byte block from the heap, and its saved context
    /// resumes at `func` with the stack empty. The kernel cannot run a
    /// thread without a stack, so the heap must have room; a caller that
    /// cannot guarantee that checks first and treats failure as fatal.
    pub fn new(func: u64, heap: &mut Allocator) -> (t: Thread)
        requires
            old(heap).wf(),
            spec_allocate(old(heap).free_list(), STACK_SIZE as int, 1) is Some,
        ensures
            final(heap).wf(),
            final(heap).free_list() == (spec_allocate(
                old(heap).free_list(),
                STACK_SIZE as int,
                1,
            )->0).1,
            t.stack_addr == (spec_allocate(
                old(heap).free_list(),
                STACK_SIZE as int,
                1,
            )->0).0,
            t.stack_size == STACK_SIZE,
            t.context.sp == t.stack_addr + STACK_SIZE,
            t.context.lr == func,
    {
        proof {
            reveal_with_fuel(is_power_of_two, 2);
            let list0 = heap.free_list();
            let (s2, a2) = spec_size_align(STACK_SIZE as int, 1);
            crate::heap::lemma_find_from_props(list0, s2, a2, 0);
            let i = crate::heap::spec_find_region(list0, s2, a2)->0;
            assert(crate::heap::region_wf(list0[i]));
            crate::utils::lemma_align_up_props(list0[i].addr as int, a2);
        }
        match heap.allocate(STACK_SIZE, 1) {
            Some(stack_addr) => {
                let stack_end = stack_addr + STACK_SIZE;
                let context = ThreadContext::new(func, stack_end as u64);
                Thread { stack_addr, stack_size: STACK_SIZE, context }
            },
            None => vstd::pervasive::unreached(),
        }
    }

    /// The identifier of the thread backing the currently executing
    /// context.
    pub fn current(cpu: &Cpu) -> (r: usize)
        ensures
            r == cpu.current_spec(),
    {
        cpu.current
    }

    /// Hands the CPU from `from` to `to`. The architecture primitive saves
    /// `from`'s callee-preserved registers and stack pointer, restores
    /// `to`'s, and resumes inside `to`'s last switch; the effect the
    /// scheduler relies on — modelled here — is that `to` becomes the
    /// current thread.
    pub fn switch(cpu: &mut Cpu, from: usize, to: usize)
        requires
            old(cpu).current_spec() == from,
        ensures
            final(cpu).current_spec() == to,
    {
        cpu.current = to;
    }

    /// The very first hand-off at boot: control leaves the throwaway boot
    /// context, which is never switched back into, and `init` becomes the
    /// current thread. At the architecture level this call never returns
    /// to its caller.
    pub fn start_with(cpu: &mut Cpu, init: usize)
        ensures
            final(cpu).current_spec() == init,
    {
        cpu.current = init;
    }

    /// Cooperative yield: the scheduler picks the next thread (queue head,
    /// or idle when the queue is empty), the yielding thread re-enqueues
    /// itself — unless it is the idle thread, which is always available and
    /// never queued — and the CPU switches to the chosen thread.
    pub fn yield_current(cpu: &mut Cpu, sched: &mut Scheduler)
        requires
            old(sched).wf(),
        ensures
            final(sched).wf(),
            final(sched).idle_spec() == old(sched).idle_spec(),
            final(sched).queue_spec() == spec_yield(
                old(sched).queue_spec(),
                old(sched).idle_spec(),
                old(cpu).current_spec(),
            ).0,
            final(cpu).current_spec() == spec_yield(
                old(sched).queue_spec(),
                old(sched).idle_spec(),
                old(cpu).current_spec(),
            ).1,
    {
        let current = Thread::current(cpu);
        let next = sched.schedule();
        if current != sched.idle_thread {
            sched.add(current);
        }
        Thread::switch(cpu, current, next);
    }
}

/// Holds the FIFO ready queue and the designated idle thread.
pub struct Scheduler {
    queue: VecDeque<usize>,
    idle_thread: usize,
}

/// One cooperative hand-off, as a function of the ready queue, the idle
/// thread and the yielding thread: who runs next, and what the queue
/// becomes. The next thread is the queue head, or idle when the queue is
/// empty; the yielding thread goes to the back of the queue unless it is
/// the idle thread.
pub open spec fn spec_yield(q: Seq<usize>, idle: usize, cur: usize) -> (Seq<usize>, usize) {
    let next = if q.len() == 0 {
        idle
    } else {
        q[0]
    };
    let rest = if q.len() == 0 {
        q
    } else {
        q.subrange(1, q.len() as int)
    };
    let q2 = if cur != idle {
        rest.push(cur)
    } else {
        rest
    };
    (q2, next)
}

impl Scheduler {
    /// The ready queue, next thread to run first.
    pub closed spec fn queue_spec(&self) -> Seq<usize> {
        self.queue@
    }

    /// The designated idle thread.
    pub closed spec fn idle_spec(&self) -> usize {
        self.idle_thread
    }

    /// The idle thread is a fallback, never a queue entry.
    pub open spec fn wf(&self) -> bool {
        forall|i: int| 0 <= i < self.queue_spec().len()
            ==> #[trigger] self.queue_spec()[i] != self.idle_spec()
    }

    /// A scheduler with an empty ready queue and the given idle thread.
    pub fn new(idle_thread: usize) -> (r: Scheduler)
        ensures
            r.wf(),
            r.queue_spec().len() == 0,
            r.idle_spec() == idle_thread,
    {
        Scheduler { queue: VecDeque::new(), idle_thread }
    }

    /// Appends a thread to the tail of the ready queue. The idle thread is
    /// implicitly always available and must not be enqueued.
    pub fn add(&mut self, thread: usize)
        requires
            old(self).wf(),
            thread != old(self).idle_spec(),
        ensures
            final(self).wf(),
            final(self).idle_spec() == old(self).idle_spec(),
            final(self).queue_spec() == old(self).queue_spec().push(thread),
    {
        self.queue.push_back(thread);
        proof {
            assert forall|i: int| 0 <= i < self.queue_spec().len() implies #[trigger] self
                .queue_spec()[i] != self.idle_spec() by {
                if i < old(self).queue_spec().len() {
                    assert(old(self).queue_spec()[i] != old(self).idle_spec());
                }
            }
        }
    }

    /// Pops the head of the ready queue; when the queue is empty, returns
    /// the idle thread instead, leaving the queue untouched.
    pub fn schedule(&mut self) -> (r: usize)
        requires
            old(self).wf(),
        ensures
            final(self).wf(),
            final(self).idle_spec() == old(self).idle_spec(),
            old(self).queue_spec().len() == 0 ==> r == old(self).idle_spec()
                && final(self).queue_spec() == old(self).queue_spec(),
            old(self).queue_spec().len() > 0 ==> r == old(self).queue_spec()[0]
                && final(self).queue_spec() == old(self).queue_spec().subrange(
                1,
                old(self).queue_spec().len() as int,
            ),
    {
        match self.queue.pop_front() {
            Some(next) => next,
            None => self.idle_thread,
        }
    }
}

/// The threads granted control by `k` successive yields, in order,
/// starting from ready queue `q` with `cur` running: each yield is
/// performed by the thread that just received control.
pub open spec fn spec_run_sequence(q: Seq<usize>, idle: usize, cur: usize, k: nat) -> Seq<usize>
    decreases k,
{
    if k == 0 {
        Seq::empty()
    } else {
        let step = spec_yield(q, idle, cur);
        Seq::empty().push(step.1) + spec_run_sequence(step.0, idle, step.1, (k - 1) as nat)
    }
}

/// FIFO fairness, prefix form: as long as the yields do not outrun the
/// queue, the first `k` hand-offs grant control to exactly the first `k`
/// queued threads, in queue order.
pub proof fn lemma_run_sequence_prefix(q: Seq<usize>, idle: usize, cur: usize, k: nat)
    requires
        k <= q.len(),
        cur != idle,
        forall|i: int| 0 <= i < q.len() ==> #[trigger] q[i] != idle,
    ensures
        spec_run_sequence(q, idle, cur, k) == q.take(k as int),
    decreases k,
{
    if k == 0 {
        assert(spec_run_sequence(q, idle, cur, 0) =~= q.take(0));
    } else {
        let step = spec_yield(q, idle, cur);
        let tail = q.subrange(1, q.len() as int);
        assert(step.0 == tail.push(cur));
        assert(forall|i: int| 0 <= i < step.0.len() ==> #[trigger] step.0[i] != idle);
        lemma_run_sequence_prefix(step.0, idle, q[0], (k - 1) as nat);
        assert(step.0.take(k - 1) =~= q.subrange(1, k as int));
        assert(Seq::empty().push(q[0]) + q.subrange(1, k as int) =~= q.take(k as int));
    }
}

/// Yield liveness, round-robin form: with at least one other thread ready,
/// a yielding thread regains control only after every other ready thread
/// has had exactly one turn — the hand-offs of `len(q) + 1` successive
/// yields are the queued threads in FIFO order followed by the yielder
/// itself.
pub proof fn lemma_yield_round_robin(q: Seq<usize>, idle: usize, cur: usize)
    requires
        q.len() >= 1,
        cur != idle,
        forall|i: int| 0 <= i < q.len() ==> #[trigger] q[i] != idle,
    ensures
        spec_run_sequence(q, idle, cur, (q.len() + 1) as nat) == q.push(cur),
{
    let step = spec_yield(q, idle, cur);
    let tail = q.subrange(1, q.len() as int);
    assert(step.0 == tail.push(cur));
    assert(forall|i: int| 0 <= i < step.0.len() ==> #[trigger] step.0[i] != idle);
    lemma_run_sequence_prefix(step.0, idle, q[0], q.len() as nat);
    assert(step.0.take(q.len() as int) =~= step.0);
    assert(Seq::empty().push(q[0]) + step.0 =~= q.push(cur));
}

} // verus!
