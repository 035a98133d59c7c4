use armkernel::arch::arm::thread::{new_thread, switch_context, Context};
use armkernel::cpu::CPU;
use armkernel::mem::VirtualAddress;
use armkernel::platform::{PlatformServices, ThreadId};
use armkernel::sched::Sched;
use armkernel::thread::{RunState, Thread};

type T = Thread<u32>;

fn ctx() -> Context {
    new_thread(VirtualAddress(0x2000), 0x8000).0
}

fn idle_thread(core: usize) -> T {
    let mut t: T = Thread::new_cur_thread(ThreadId(core));
    t.cpu_affinity = Some(core);
    t.priority = 0;
    t
}

/// A scheduler and a core that runs its fallback thread.
fn booted() -> (Sched<u32>, CPU<u32>, u32) {
    let sched: Sched<u32> = Sched::new();
    let mut cpu: CPU<u32> = CPU::new(0);
    cpu.set_running_thread(idle_thread(0));
    (sched, cpu, 0x13)
}

fn running_id(cpu: &CPU<u32>) -> usize {
    cpu.get_running_thread().as_ref().unwrap().id.0
}

fn pool_ids(sched: &Sched<u32>) -> Vec<usize> {
    (0..sched.pool_len()).map(|i| sched.pool_thread(i).id.0).collect()
}

#[test]
fn new_scheduler_is_empty() {
    let sched: Sched<u32> = Sched::new();
    assert_eq!(sched.pool_len(), 0);
    assert_eq!(sched.time_since_boot(), 0);
}

#[test]
fn spawn_gives_rising_ids_from_1000() {
    let (mut sched, _cpu, mut cpsr) = booted();
    let a = sched.spawn(0, &mut cpsr, 11, ctx());
    let b = sched.spawn(0, &mut cpsr, 22, ctx());
    assert_eq!(a, ThreadId(1000));
    assert_eq!(b, ThreadId(1001));
    assert_eq!(pool_ids(&sched), vec![1000, 1001]);
    let t = sched.pool_thread(0);
    assert_eq!(t.priority, 1);
    assert_eq!(t.cpu_affinity, None);
    assert_eq!(t.run_state, RunState::Ready);
    assert_eq!(t.func, Some(11));
    assert_eq!(cpsr, 0x13);
}

#[test]
fn yield_with_empty_pool_keeps_the_thread() {
    let (mut sched, mut cpu, mut cpsr) = booted();
    sched.yield_thread(&mut cpu, &mut cpsr);
    assert_eq!(running_id(&cpu), 0);
    assert_eq!(sched.pool_len(), 0);
}

#[test]
fn idle_thread_rests_outside_the_pool() {
    let (mut sched, mut cpu, mut cpsr) = booted();
    sched.spawn(0, &mut cpsr, 1, ctx());
    sched.yield_thread(&mut cpu, &mut cpsr);
    assert_eq!(running_id(&cpu), 1000);
    assert_eq!(sched.pool_len(), 0);
    // the only other thread is the fallback; a ready thread keeps the core
    sched.yield_thread(&mut cpu, &mut cpsr);
    assert_eq!(running_id(&cpu), 1000);
}

#[test]
fn round_robin_among_equals() {
    let (mut sched, mut cpu, mut cpsr) = booted();
    for f in 0..4 {
        sched.spawn(0, &mut cpsr, f, ctx());
    }
    sched.yield_thread(&mut cpu, &mut cpsr);
    assert_eq!(running_id(&cpu), 1000);
    let mut seen = Vec::new();
    for _ in 0..8 {
        sched.yield_thread(&mut cpu, &mut cpsr);
        seen.push(running_id(&cpu));
    }
    assert_eq!(seen, vec![1001, 1002, 1003, 1000, 1001, 1002, 1003, 1000]);
    assert_eq!(pool_ids(&sched), vec![1001, 1002, 1003]);
}

#[test]
fn higher_priority_wins_and_first_among_equals() {
    let mut sched: Sched<u32> = Sched::new();
    let mut cpu: CPU<u32> = CPU::new(0);
    let mut a: T = Thread::new(ThreadId(1), 0, ctx());
    a.priority = 2;
    let mut b: T = Thread::new(ThreadId(2), 0, ctx());
    b.priority = 5;
    let mut c: T = Thread::new(ThreadId(3), 0, ctx());
    c.priority = 5;
    let d: T = Thread::new(ThreadId(4), 0, ctx());
    // put a, b, c in the pool in that order
    sched.finish_switch(&mut cpu, Some(a), idle_thread(0));
    sched.finish_switch(&mut cpu, Some(b), d);
    let d = cpu.take_running_thread();
    sched.finish_switch(&mut cpu, Some(c), d);
    assert_eq!(pool_ids(&sched), vec![1, 2, 3]);
    let cur = cpu.take_running_thread();
    let next = sched.schedule_new(&mut cpu, Some(&cur)).unwrap();
    assert_eq!(next.id, ThreadId(2));
    assert_eq!(pool_ids(&sched), vec![1, 3]);
}

#[test]
fn affinity_keeps_a_thread_off_other_cores() {
    let mut sched: Sched<u32> = Sched::new();
    let mut cpu0: CPU<u32> = CPU::new(0);
    let mut cpu1: CPU<u32> = CPU::new(1);
    cpu0.set_idle_thread(idle_thread(0));
    cpu1.set_idle_thread(idle_thread(1));
    let mut a: T = Thread::new(ThreadId(7), 0, ctx());
    a.cpu_affinity = Some(1);
    let boot: T = Thread::new(ThreadId(8), 0, ctx());
    sched.finish_switch(&mut cpu0, Some(a), boot);
    let cur = cpu0.take_running_thread();
    // core 0 may not take thread 7; the thread it ran is ready and goes on
    assert!(sched.schedule_new(&mut cpu0, Some(&cur)).is_none());
    // with nothing to go back to, core 0 gets its own fallback thread
    let next = sched.schedule_new(&mut cpu0, None).unwrap();
    assert_eq!(next.id, ThreadId(0));
    assert_eq!(next.cpu_affinity, Some(0));
    assert_eq!(next.priority, 0);
    // core 1 takes thread 7
    let next = sched.schedule_new(&mut cpu1, None).unwrap();
    assert_eq!(next.id, ThreadId(7));
}

#[test]
fn sleep_wakes_at_the_deadline_and_not_before() {
    let (mut sched, mut cpu, mut cpsr) = booted();
    sched.spawn(0, &mut cpsr, 1, ctx());
    sched.yield_thread(&mut cpu, &mut cpsr);
    assert_eq!(running_id(&cpu), 1000);
    sched.sleep(&mut cpu, &mut cpsr, 100);
    assert_eq!(running_id(&cpu), 0);
    assert_eq!(sched.pool_thread(0).run_state, RunState::WakeOn(100));
    sched.clock();
    assert_eq!(sched.time_since_boot(), 50);
    sched.yield_thread(&mut cpu, &mut cpsr);
    assert_eq!(running_id(&cpu), 0);
    assert_eq!(sched.pool_thread(0).run_state, RunState::WakeOn(100));
    sched.clock();
    assert_eq!(sched.time_since_boot(), 100);
    sched.yield_thread(&mut cpu, &mut cpsr);
    assert_eq!(running_id(&cpu), 1000);
    assert_eq!(cpu.get_running_thread().as_ref().unwrap().run_state, RunState::Ready);
}

#[test]
fn block_and_wakeup() {
    let (mut sched, mut cpu, mut cpsr) = booted();
    sched.spawn(0, &mut cpsr, 1, ctx());
    sched.yield_thread(&mut cpu, &mut cpsr);
    sched.block(&mut cpu, &mut cpsr);
    assert_eq!(running_id(&cpu), 0);
    assert_eq!(sched.pool_thread(0).run_state, RunState::Blocked);
    sched.yield_thread(&mut cpu, &mut cpsr);
    assert_eq!(running_id(&cpu), 0);
    // a name that is not in the pool changes nothing
    sched.wakeup(0, &mut cpsr, ThreadId(4242));
    assert_eq!(sched.pool_thread(0).run_state, RunState::Blocked);
    sched.wakeup(0, &mut cpsr, ThreadId(1000));
    assert_eq!(sched.pool_thread(0).run_state, RunState::Ready);
    sched.yield_thread(&mut cpu, &mut cpsr);
    assert_eq!(running_id(&cpu), 1000);
}

#[test]
fn wakeup_cuts_a_sleep_short() {
    let (mut sched, mut cpu, mut cpsr) = booted();
    sched.spawn(0, &mut cpsr, 1, ctx());
    sched.yield_thread(&mut cpu, &mut cpsr);
    sched.sleep(&mut cpu, &mut cpsr, 1000);
    sched.wakeup_no_intr(0, ThreadId(1000));
    assert_eq!(sched.pool_thread(0).run_state, RunState::Ready);
}

#[test]
fn sole_thread_exits_and_the_idle_thread_runs() {
    let (mut sched, mut cpu, mut cpsr) = booted();
    let tid = sched.spawn(0, &mut cpsr, 1, ctx());
    sched.yield_thread(&mut cpu, &mut cpsr);
    assert_eq!(running_id(&cpu), tid.0);
    sched.exit_thread(&mut cpu, &mut cpsr);
    assert_eq!(running_id(&cpu), 0);
    assert_eq!(cpu.get_running_thread().as_ref().unwrap().priority, 0);
    assert_eq!(sched.pool_len(), 0);
    // interrupts stay off until the resumed thread lets them in
    assert_eq!(cpsr & 0x80, 0x80);
    for _ in 0..5 {
        sched.clock();
        sched.yield_thread(&mut cpu, &mut cpsr);
        assert_eq!(running_id(&cpu), 0);
        assert!(!pool_ids(&sched).contains(&tid.0));
    }
}

#[test]
fn thread_start_hands_out_the_entry() {
    let (mut sched, mut cpu, mut cpsr) = booted();
    sched.spawn(0, &mut cpsr, 77, ctx());
    let cur = cpu.take_running_thread();
    let next = sched.schedule_new(&mut cpu, Some(&cur)).unwrap();
    let (old, new) = switch_context(Some(cur), next);
    let f = sched.thread_start(&mut cpu, old, new);
    assert_eq!(f, 77);
    assert_eq!(running_id(&cpu), 1000);
    assert_eq!(cpu.get_running_thread().as_ref().unwrap().func, None);
    // the boot thread is the fallback: it rests outside the pool
    assert_eq!(sched.pool_len(), 0);
}

#[test]
fn tick_asks_for_a_reschedule() {
    let mut p: PlatformServices<u32> = PlatformServices::new(2);
    p.cpus[0].set_running_thread(idle_thread(0));
    p.cpus[1].set_running_thread(idle_thread(1));
    let mut cpsr = 0x13;
    p.scheduler.spawn(0, &mut cpsr, 5, ctx());
    assert!(!p.post_interrupted(0));
    p.clock(1);
    assert_eq!(p.get_scheduler().time_since_boot(), 0);
    assert!(p.get_current_cpu(1).should_resched());
    assert!(!p.get_current_cpu(0).should_resched());
    p.clock(0);
    assert_eq!(p.get_scheduler().time_since_boot(), 50);
    assert!(p.post_interrupted(0));
    assert!(!p.get_current_cpu(0).should_resched());
    assert_eq!(running_id(p.get_current_cpu(0)), 1000);
    assert!(p.post_interrupted(1));
    assert_eq!(running_id(p.get_current_cpu(1)), 1);
}

#[test]
fn get_current_thread_names_the_running_thread() {
    let (mut sched, mut cpu, mut cpsr) = booted();
    assert_eq!(sched.get_current_thread(&cpu), ThreadId(0));
    sched.spawn(0, &mut cpsr, 1, ctx());
    sched.yield_thread(&mut cpu, &mut cpsr);
    assert_eq!(sched.get_current_thread(&cpu), ThreadId(1000));
}

#[test]
fn can_schedule_says_when_a_core_has_nothing_to_run() {
    let mut sched: Sched<u32> = Sched::new();
    let mut cpu: CPU<u32> = CPU::new(0);
    // no pool, no fallback thread, nothing to go back to
    assert!(!sched.can_schedule(&cpu, None));
    let mut waiting: T = Thread::new(ThreadId(9), 0, ctx());
    waiting.run_state = RunState::Blocked;
    assert!(!sched.can_schedule(&cpu, Some(&waiting)));
    let ready: T = Thread::new(ThreadId(10), 0, ctx());
    assert!(sched.can_schedule(&cpu, Some(&ready)));
    cpu.set_idle_thread(idle_thread(0));
    assert!(sched.can_schedule(&cpu, None));
    let _ = cpu.take_idle_thread();
    let mut cpsr = 0x13;
    sched.spawn(0, &mut cpsr, 1, ctx());
    assert!(sched.can_schedule(&cpu, None));
    assert_eq!(sched.next_thread_id(), 1001);
}

#[test]
fn exited_threads_wait_for_their_stacks_to_be_freed() {
    let (mut sched, mut cpu, mut cpsr) = booted();
    sched.spawn(0, &mut cpsr, 1, ctx());
    sched.yield_thread(&mut cpu, &mut cpsr);
    assert_eq!(sched.dying_len(), 0);
    sched.exit_thread(&mut cpu, &mut cpsr);
    assert_eq!(sched.dying_len(), 1);
}

#[test]
fn lower_priority_threads_wait_while_equals_take_turns() {
    let (mut sched, mut cpu, mut cpsr) = booted();
    let mut low: T = Thread::new(ThreadId(1), 0, ctx());
    low.priority = 1;
    let mut a: T = Thread::new(ThreadId(2), 0, ctx());
    a.priority = 3;
    let mut b: T = Thread::new(ThreadId(3), 0, ctx());
    b.priority = 3;
    let mut c: T = Thread::new(ThreadId(4), 0, ctx());
    c.priority = 3;
    // the pool is a, low, b; c runs
    let idle = cpu.take_running_thread();
    cpu.set_idle_thread(idle);
    sched.finish_switch(&mut cpu, None, a);
    let a = cpu.take_running_thread();
    sched.finish_switch(&mut cpu, Some(a), low);
    let low = cpu.take_running_thread();
    sched.finish_switch(&mut cpu, Some(low), b);
    let b = cpu.take_running_thread();
    sched.finish_switch(&mut cpu, Some(b), c);
    assert_eq!(pool_ids(&sched), vec![2, 1, 3]);
    let mut seen = Vec::new();
    for _ in 0..6 {
        sched.yield_thread(&mut cpu, &mut cpsr);
        seen.push(running_id(&cpu));
    }
    assert_eq!(seen, vec![2, 3, 4, 2, 3, 4]);
}

#[test]
fn a_core_frees_its_own_dead() {
    let (mut sched, mut cpu0, mut cpsr) = booted();
    let mut cpu1: CPU<u32> = CPU::new(1);
    cpu1.set_running_thread(idle_thread(1));
    for f in 0..3 {
        sched.spawn(0, &mut cpsr, f, ctx());
    }
    // 1000 and 1002 end on core 0, 1001 ends on core 1
    sched.yield_thread(&mut cpu0, &mut cpsr);
    sched.yield_thread(&mut cpu1, &mut cpsr);
    assert_eq!((running_id(&cpu0), running_id(&cpu1)), (1000, 1001));
    sched.exit_thread(&mut cpu0, &mut cpsr);
    sched.exit_thread(&mut cpu1, &mut cpsr);
    assert_eq!(running_id(&cpu0), 1002);
    sched.exit_thread(&mut cpu0, &mut cpsr);
    assert_eq!(sched.dying_len(), 3);
    let freed: Vec<usize> = sched.reap_dying(0).iter().map(|t| t.id.0).collect();
    assert_eq!(freed, vec![1000, 1002]);
    assert_eq!(sched.dying_len(), 1);
    assert!(sched.reap_dying(0).is_empty());
    let freed: Vec<usize> = sched.reap_dying(1).iter().map(|t| t.id.0).collect();
    assert_eq!(freed, vec![1001]);
    assert_eq!(sched.dying_len(), 0);
}

#[test]
fn a_yield_in_two_halves() {
    let (mut sched, mut cpu, mut cpsr) = booted();
    sched.spawn(0, &mut cpsr, 1, ctx());
    let sw = sched.begin_yield(&mut cpu).unwrap();
    assert_eq!(sw.previous.as_ref().unwrap().id, ThreadId(0));
    assert_eq!(sw.next.id, ThreadId(1000));
    // between the halves the core runs nothing, and both threads are out of the pool
    assert!(cpu.get_running_thread().is_none());
    assert_eq!(sched.pool_len(), 0);
    assert!(Sched::can_finish_switch(&cpu, sw.previous.as_ref(), &sw.next));
    let (old, current) = switch_context(sw.previous, sw.next);
    sched.finish_switch(&mut cpu, old, current);
    assert_eq!(running_id(&cpu), 1000);
    // nothing else is ready: the thread stays, and there is nothing to switch
    assert!(sched.begin_yield(&mut cpu).is_none());
    assert_eq!(running_id(&cpu), 1000);
}

#[test]
fn block_sleep_and_exit_in_two_halves() {
    let (mut sched, mut cpu, mut cpsr) = booted();
    for f in 0..3 {
        sched.spawn(0, &mut cpsr, f, ctx());
    }
    sched.yield_thread(&mut cpu, &mut cpsr);
    let sw = sched.begin_block(&mut cpu);
    assert_eq!(sw.previous.as_ref().unwrap().run_state, RunState::Blocked);
    assert_eq!(sw.next.id, ThreadId(1001));
    sched.finish_switch(&mut cpu, sw.previous, sw.next);
    let sw = sched.begin_sleep(&mut cpu, 70);
    assert_eq!(sw.previous.as_ref().unwrap().run_state, RunState::WakeOn(70));
    assert_eq!(sw.next.id, ThreadId(1002));
    sched.finish_switch(&mut cpu, sw.previous, sw.next);
    let sw = sched.begin_exit(&mut cpu);
    assert!(sw.previous.is_none());
    assert_eq!(sw.next.id, ThreadId(0));
    assert_eq!(sched.dying_len(), 1);
    sched.finish_switch(&mut cpu, sw.previous, sw.next);
    assert_eq!(pool_ids(&sched), vec![1000, 1001]);
}

#[test]
fn what_may_run_on_a_core() {
    let mut cpu: CPU<u32> = CPU::new(1);
    let t: T = Thread::new(ThreadId(5), 0, ctx());
    assert!(cpu.can_run(&t));
    // a fallback thread of another core may not
    assert!(!cpu.can_run(&idle_thread(0)));
    assert!(cpu.can_run(&idle_thread(1)));
    let mut waiting = idle_thread(1);
    waiting.run_state = RunState::Blocked;
    assert!(!cpu.can_run(&waiting));
    cpu.set_idle_thread(idle_thread(1));
    // there is one fallback thread to a core
    assert!(!cpu.can_run(&idle_thread(1)));
    assert!(!Sched::can_finish_switch(&cpu, Some(&idle_thread(1)), &t));
    assert!(Sched::can_finish_switch(&cpu, Some(&t), &t));
    assert!(Sched::can_finish_switch(&cpu, None, &t));
}

#[test]
fn tick_in_two_halves() {
    let mut p: PlatformServices<u32> = PlatformServices::new(1);
    p.cpus[0].set_running_thread(idle_thread(0));
    let mut cpsr = 0x13;
    p.scheduler.spawn(0, &mut cpsr, 5, ctx());
    assert!(p.begin_post_interrupted(0).is_none());
    p.clock(0);
    let sw = p.begin_post_interrupted(0).unwrap();
    assert!(!p.get_current_cpu(0).should_resched());
    assert_eq!(sw.next.id, ThreadId(1000));
    p.scheduler.finish_switch(&mut p.cpus[0], sw.previous, sw.next);
    assert_eq!(running_id(p.get_current_cpu(0)), 1000);
}
