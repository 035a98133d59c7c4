use armkernel::arch::arm::thread::{new_thread, Context};
use armkernel::cpu::CPU;
use armkernel::mem::VirtualAddress;
use armkernel::platform::ThreadId;
use armkernel::sched::Sched;
use armkernel::sync::{CpuMutex, Semaphore};
use armkernel::thread::{RunState, Thread};

fn ctx() -> Context {
    new_thread(VirtualAddress(0x2000), 0x8000).0
}

fn booted() -> (Sched<u32>, CPU<u32>, u32) {
    let sched: Sched<u32> = Sched::new();
    let mut cpu: CPU<u32> = CPU::new(0);
    let mut idle: Thread<u32> = Thread::new_cur_thread(ThreadId(0));
    idle.cpu_affinity = Some(0);
    idle.priority = 0;
    cpu.set_running_thread(idle);
    (sched, cpu, 0x13)
}

fn running_id(cpu: &CPU<u32>) -> usize {
    cpu.get_running_thread().as_ref().unwrap().id.0
}

#[test]
fn mutex_starts_free_and_is_taken_by_the_first_core() {
    let mut m = CpuMutex::new(5u32);
    assert!(m.obtain_lock(1));
    assert!(!m.obtain_lock(0));
    assert!(m.lock(2).is_none());
    m.release_lock(1);
    assert!(m.obtain_lock(0));
    m.release_lock(0);
}

#[test]
fn nested_locks_by_one_core_need_as_many_unlocks() {
    let mut m = CpuMutex::new(0u32);
    for _ in 0..5 {
        assert!(m.obtain_lock(3));
    }
    for _ in 0..4 {
        m.release_lock(3);
        // still held: another core does not get it
        assert!(!m.obtain_lock(1));
    }
    m.release_lock(3);
    assert!(m.obtain_lock(1));
    m.release_lock(1);
}

#[test]
fn guard_gives_access_to_the_value() {
    let mut m = CpuMutex::new(vec![1u8, 2]);
    {
        let mut g = m.lock(0).unwrap();
        assert_eq!(g.deref().len(), 2);
        g.deref_mut().push(3);
        g.unlock();
    }
    assert_eq!(*m.peek(), vec![1, 2, 3]);
    // free again
    assert!(m.obtain_lock(1));
    m.release_lock(1);
}

#[test]
fn guard_can_be_nested_on_one_core() {
    let mut m = CpuMutex::new(1u32);
    assert!(m.obtain_lock(0));
    {
        let mut g = m.lock(0).unwrap();
        *g.deref_mut() += 1;
        g.unlock();
    }
    assert!(!m.obtain_lock(1));
    m.release_lock(0);
    assert!(m.obtain_lock(1));
    assert_eq!(*m.peek(), 2);
}

#[test]
fn semaphore_counts_down_without_blocking() {
    let (mut sched, mut cpu, mut cpsr) = booted();
    sched.spawn(0, &mut cpsr, 1, ctx());
    sched.yield_thread(&mut cpu, &mut cpsr);
    let mut sem = Semaphore::new(2);
    sem.acquire(&mut sched, &mut cpu, &mut cpsr);
    assert_eq!(running_id(&cpu), 1000);
    sem.acquire(&mut sched, &mut cpu, &mut cpsr);
    assert_eq!(running_id(&cpu), 1000);
    // the third request has to wait
    sem.acquire(&mut sched, &mut cpu, &mut cpsr);
    assert_eq!(running_id(&cpu), 0);
    assert_eq!(sched.pool_thread(0).run_state, RunState::Blocked);
    assert_eq!(cpsr, 0x13);
}

#[test]
fn release_without_waiters_adds_a_unit() {
    let (mut sched, mut cpu, mut cpsr) = booted();
    sched.spawn(0, &mut cpsr, 1, ctx());
    sched.yield_thread(&mut cpu, &mut cpsr);
    let mut sem = Semaphore::new(0);
    sem.release(&mut sched, 0, &mut cpsr);
    sem.acquire(&mut sched, &mut cpu, &mut cpsr);
    assert_eq!(running_id(&cpu), 1000);
}

#[test]
fn waiters_are_woken_first_come_first_served() {
    let (mut sched, mut cpu, mut cpsr) = booted();
    for f in 0..3 {
        sched.spawn(0, &mut cpsr, f, ctx());
    }
    let mut sem = Semaphore::new(0);
    // the three threads ask in the order 1000, 1001, 1002 and all wait
    sched.yield_thread(&mut cpu, &mut cpsr);
    for expect in [1000, 1001, 1002] {
        assert_eq!(running_id(&cpu), expect);
        sem.acquire(&mut sched, &mut cpu, &mut cpsr);
    }
    assert_eq!(running_id(&cpu), 0);
    for expect in [1000, 1001, 1002] {
        sem.release(&mut sched, 0, &mut cpsr);
        sched.yield_thread(&mut cpu, &mut cpsr);
        assert_eq!(running_id(&cpu), expect);
        // the woken thread holds the unit; it blocks again on something else
        sched.block(&mut cpu, &mut cpsr);
        assert_eq!(running_id(&cpu), 0);
    }
}

#[test]
fn two_threads_share_one_unit() {
    let (mut sched, mut cpu, mut cpsr) = booted();
    let t1 = sched.spawn(0, &mut cpsr, 1, ctx());
    let t2 = sched.spawn(0, &mut cpsr, 2, ctx());
    let mut sem = Semaphore::new(1);
    // T1 runs, takes the unit and sleeps for a second
    sched.yield_thread(&mut cpu, &mut cpsr);
    assert_eq!(running_id(&cpu), t1.0);
    sem.acquire(&mut sched, &mut cpu, &mut cpsr);
    assert_eq!(running_id(&cpu), t1.0);
    sched.sleep(&mut cpu, &mut cpsr, 1000);
    // T2 runs, asks for the unit and has to wait
    assert_eq!(running_id(&cpu), t2.0);
    sem.acquire(&mut sched, &mut cpu, &mut cpsr);
    assert_eq!(running_id(&cpu), 0);
    // nothing runs but the fallback until a second has passed
    for tick in 1..=19 {
        sched.clock();
        sched.yield_thread(&mut cpu, &mut cpsr);
        assert_eq!(running_id(&cpu), 0, "tick {}", tick);
    }
    sched.clock();
    assert_eq!(sched.time_since_boot(), 1000);
    sched.yield_thread(&mut cpu, &mut cpsr);
    assert_eq!(running_id(&cpu), t1.0);
    // T1 gives the unit back: it goes to T2, which is woken
    sem.release(&mut sched, 0, &mut cpsr);
    sched.yield_thread(&mut cpu, &mut cpsr);
    assert_eq!(running_id(&cpu), t2.0);
    assert_eq!(cpu.get_running_thread().as_ref().unwrap().run_state, RunState::Ready);
    // the unit is T2's: T1 would have to wait for it now
    sched.yield_thread(&mut cpu, &mut cpsr);
    assert_eq!(running_id(&cpu), t1.0);
    sem.acquire(&mut sched, &mut cpu, &mut cpsr);
    assert_eq!(running_id(&cpu), t2.0);
}

#[test]
fn access_hands_out_a_guard_that_gives_the_unit_back() {
    let (mut sched, mut cpu, mut cpsr) = booted();
    sched.spawn(0, &mut cpsr, 1, ctx());
    sched.yield_thread(&mut cpu, &mut cpsr);
    let mut sem = Semaphore::new(1);
    let g = sem.access(&mut sched, &mut cpu, &mut cpsr);
    g.release(&mut sem, &mut sched, 0, &mut cpsr);
    let g = sem.access(&mut sched, &mut cpu, &mut cpsr);
    assert_eq!(running_id(&cpu), 1000);
    g.release(&mut sem, &mut sched, 0, &mut cpsr);
}

#[test]
fn never_more_grants_than_units() {
    // three threads, two units: requests are granted at once while units
    // are free, and afterwards only as units come back
    let (mut sched, mut cpu, mut cpsr) = booted();
    for f in 0..3 {
        sched.spawn(0, &mut cpsr, f, ctx());
    }
    let mut sem = Semaphore::new(2);
    sched.yield_thread(&mut cpu, &mut cpsr);
    let mut granted = 0;
    let mut released = 0;
    for _ in 0..3 {
        let me = running_id(&cpu);
        sem.acquire(&mut sched, &mut cpu, &mut cpsr);
        if running_id(&cpu) == me {
            granted += 1;
            sched.yield_thread(&mut cpu, &mut cpsr);
        }
    }
    assert_eq!(granted, 2);
    assert_eq!((sem.count(), sem.waiters()), (0, 1));
    for _ in 0..4 {
        let waiting = sem.waiters();
        sem.release(&mut sched, 0, &mut cpsr);
        released += 1;
        if waiting > 0 {
            granted += 1;
        }
        assert!(granted <= 2 + released);
        assert_eq!(granted + sem.count(), 2 + released);
    }
    assert_eq!((sem.count(), sem.waiters()), (3, 0));
}

#[test]
fn holder_and_depth_of_a_lock() {
    let mut m = CpuMutex::new(());
    assert_eq!((m.holder(), m.depth()), (None, 0));
    m.obtain_lock(2);
    m.obtain_lock(2);
    assert_eq!((m.holder(), m.depth()), (Some(2), 2));
    m.release_lock(2);
    m.release_lock(2);
    assert_eq!((m.holder(), m.depth()), (None, 0));
}

#[test]
fn acquire_in_two_halves() {
    let (mut sched, mut cpu, mut cpsr) = booted();
    sched.spawn(0, &mut cpsr, 1, ctx());
    sched.yield_thread(&mut cpu, &mut cpsr);
    let mut sem = Semaphore::new(1);
    assert!(sem.begin_acquire(&mut sched, &mut cpu, &mut cpsr).is_none());
    let sw = sem.begin_acquire(&mut sched, &mut cpu, &mut cpsr).unwrap();
    // the waiter is in the queue and off the core in one step
    assert_eq!(sem.waiters(), 1);
    assert_eq!(sw.previous.as_ref().unwrap().run_state, RunState::Blocked);
    assert_eq!(sw.next.id, ThreadId(0));
    assert!(cpu.get_running_thread().is_none());
    sched.finish_switch(&mut cpu, sw.previous, sw.next);
    assert_eq!(sched.pool_thread(0).run_state, RunState::Blocked);
}

#[test]
fn a_release_during_the_switch_is_not_lost() {
    let (mut sched, mut cpu0, mut cpsr) = booted();
    let mut cpu1: CPU<u32> = CPU::new(1);
    let mut idle1: Thread<u32> = Thread::new_cur_thread(ThreadId(1));
    idle1.cpu_affinity = Some(1);
    idle1.priority = 0;
    cpu1.set_running_thread(idle1);
    let waiter = sched.spawn(0, &mut cpsr, 1, ctx());
    sched.yield_thread(&mut cpu0, &mut cpsr);
    let mut sem = Semaphore::new(0);
    // core 0: the thread has to wait, and is between the two halves of its switch
    let sw = sem.begin_acquire(&mut sched, &mut cpu0, &mut cpsr).unwrap();
    assert_eq!(sw.previous.as_ref().unwrap().id, waiter);
    assert_eq!(sched.pool_len(), 0);
    // core 1: a unit is given back now; the waiter is not in the pool yet
    sem.release(&mut sched, 1, &mut cpsr);
    assert_eq!((sem.count(), sem.waiters()), (0, 0));
    // core 0: the switch is finished; the waiter is put away ready
    sched.finish_switch(&mut cpu0, sw.previous, sw.next);
    assert_eq!(sched.pool_thread(0).id, waiter);
    assert_eq!(sched.pool_thread(0).run_state, RunState::Ready);
    sched.yield_thread(&mut cpu1, &mut cpsr);
    assert_eq!(running_id(&cpu1), waiter.0);
}

#[test]
fn a_wakeup_of_a_running_thread_changes_nothing() {
    let (mut sched, mut cpu, mut cpsr) = booted();
    let t = sched.spawn(0, &mut cpsr, 1, ctx());
    sched.yield_thread(&mut cpu, &mut cpsr);
    sched.wakeup(0, &mut cpsr, t);
    // the wakeup is not kept for later: the thread blocks as usual
    sched.block(&mut cpu, &mut cpsr);
    assert_eq!(sched.pool_thread(0).run_state, RunState::Blocked);
}
