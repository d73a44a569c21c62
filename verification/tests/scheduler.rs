use coop_kernel::allocator::{PageAllocator, PAGE_SIZE};
use coop_kernel::heap::{heap_init, Allocator};
use coop_kernel::thread::{Cpu, Scheduler, Thread, ThreadContext, STACK_SIZE};

const IDLE: usize = 0;
const T1: usize = 1;
const T2: usize = 2;

// FIFO order: enqueue T1 then T2; schedule yields T1, then T2, then the
// idle thread once the queue is empty. The idle thread is never an entry
// of the queue itself.
#[test]
fn schedule_is_fifo_with_idle_fallback() {
    let mut sched = Scheduler::new(IDLE);
    sched.add(T1);
    sched.add(T2);
    assert_eq!(sched.schedule(), T1);
    sched.add(T1); // T1 re-enqueues itself on yield
    assert_eq!(sched.schedule(), T2);
    assert_eq!(sched.schedule(), T1);
    // queue is now empty: idle, again and again.
    assert_eq!(sched.schedule(), IDLE);
    assert_eq!(sched.schedule(), IDLE);
}

// Two threads that yield to each other alternate strictly: control
// returns to a yielding thread only after the other ready thread has had
// its turn.
#[test]
fn yield_alternates_two_threads_round_robin() {
    let mut cpu = Cpu::new();
    let mut sched = Scheduler::new(IDLE);
    Thread::start_with(&mut cpu, T1);
    assert_eq!(Thread::current(&cpu), T1);
    sched.add(T2);
    // T1 yields 10 times and T2 yields 9 times, strictly interleaved:
    // every hand-off goes to the other thread, never twice in a row to
    // the same one and never to idle while both are ready.
    for turn in 0..19 {
        Thread::yield_current(&mut cpu, &mut sched);
        let expected = if turn % 2 == 0 { T2 } else { T1 };
        assert_eq!(Thread::current(&cpu), expected);
    }
    // the 19th hand-off lands in T2, which in the original scenario then
    // halts the machine instead of yielding again.
    assert_eq!(Thread::current(&cpu), T2);
}

// Yielding with an empty ready queue hands control to the idle thread,
// which in turn hands it back without ever sitting in the queue.
#[test]
fn yield_with_empty_queue_runs_idle() {
    let mut cpu = Cpu::new();
    let mut sched = Scheduler::new(IDLE);
    Thread::start_with(&mut cpu, T1);
    Thread::yield_current(&mut cpu, &mut sched);
    assert_eq!(Thread::current(&cpu), IDLE);
    // idle yields: T1 was queued and takes over; idle was not enqueued.
    Thread::yield_current(&mut cpu, &mut sched);
    assert_eq!(Thread::current(&cpu), T1);
    Thread::yield_current(&mut cpu, &mut sched);
    assert_eq!(Thread::current(&cpu), IDLE);
}

#[test]
fn context_starts_at_entry_with_empty_stack() {
    let ctx = ThreadContext::new(0xdead_beef, 0x10_0000);
    assert_eq!(ctx.lr, 0xdead_beef);
    assert_eq!(ctx.sp, 0x10_0000);
    assert_eq!(ctx.x19, 0);
    assert_eq!(ctx.x29, 0);
    let idle_ctx = ThreadContext::default();
    assert_eq!(idle_ctx.lr, 0);
    assert_eq!(idle_ctx.sp, 0);
}

// A new thread owns a fresh stack from the heap and a context that will
// start at its entry function with the stack empty.
#[test]
fn thread_new_draws_stack_from_heap() {
    let mut pa = PageAllocator::new(0, 4 * PAGE_SIZE);
    let mut heap = Allocator::new();
    assert!(heap_init(&mut pa, &mut heap, 2 * PAGE_SIZE));
    let entry1: u64 = 0x4000_1000;
    let entry2: u64 = 0x4000_2000;
    let t1 = Thread::new(entry1, &mut heap);
    let t2 = Thread::new(entry2, &mut heap);
    assert_eq!(t1.stack_size, STACK_SIZE);
    assert_eq!(t2.stack_size, STACK_SIZE);
    assert_eq!(t1.context.lr, entry1);
    assert_eq!(t2.context.lr, entry2);
    assert_eq!(t1.context.sp, (t1.stack_addr + STACK_SIZE) as u64);
    assert_eq!(t2.context.sp, (t2.stack_addr + STACK_SIZE) as u64);
    // the stacks are disjoint: the second sits right after the first.
    assert_eq!(t1.stack_addr, PAGE_SIZE);
    assert_eq!(t2.stack_addr, PAGE_SIZE + STACK_SIZE);
}
