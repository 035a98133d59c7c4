//! The scheduler: the pool of threads that no core is running, the clock,
//! and the operations by which a core gives up its thread and gets the next.
//!
//! A core that switches threads does so in three steps: it decides
//! ([`Sched::schedule_new`]), it changes stacks, and on the new stack it does
//! the bookkeeping ([`Sched::finish_switch`]).  Only the middle step needs
//! the machine.  The operations below run all three on the model, with
//! [`switch_context`] standing for the change of stacks, and say what the
//! pool and the core look like when they are done.

pub mod laws;
pub mod select;

use vstd::prelude::*;
use crate::arch::arm::cpu::spec_set_interrupts;
use crate::arch::arm::thread::{switch_context, Context};
use crate::cpu::CPU;
use crate::platform::intr::{after_section, no_interrupts};
use crate::platform::ThreadId;
use crate::sync::CpuMutex;
use crate::thread::{RunState, Thread};
use self::select::{
    choice, has_candidate, has_no_thread, has_ready, is_first_with_id, lemma_choice_is,
    lemma_enter_then_settle, note_woken, noted, promote_all, readied, scan, settled, take_leaving,
    wake_first, without_leaving, Leaving,
};

verus! {

/// The number in the id of the thread that boots the first core.
pub const MAIN_THREAD_ID: usize = 0;

/// The id that the first spawned thread gets.
pub const FIRST_THREAD_ID: usize = 1000;

/// Milliseconds in a tick.
pub const DELTA_MILLIS: usize = 50;

/// What a core decides when it looks for its next thread.
pub enum Pick {
    /// The thread it was running goes on.
    Same,
    /// The thread at this place of the pool.
    FromPool(int),
    /// Its fallback thread.
    Idle,
}

/// The decision of `core`, given the pool as it is now and whether the
/// thread it was running is there and ready to go on.
pub open spec fn pick<F>(pool: Seq<Thread<F>>, core: usize, current_ready: bool) -> Pick {
    if has_candidate(pool, core) {
        Pick::FromPool(choice(pool, core))
    } else if current_ready {
        Pick::Same
    } else {
        Pick::Idle
    }
}

/// The pool together with what one core holds.
pub struct CoreView<F> {
    pub pool: Seq<Thread<F>>,
    pub running: Option<Thread<F>>,
    pub idle: Option<Thread<F>>,
}

/// Every thread of the pool has a priority above zero: zero is kept for the
/// fallback threads, which are never in the pool.
pub open spec fn pool_wf<F>(pool: Seq<Thread<F>>) -> bool {
    forall|i: int| 0 <= i < pool.len() ==> (#[trigger] pool[i]).priority > 0
}

impl<F> CoreView<F> {
    /// The view after `old` has been put away: a fallback thread goes to its
    /// resting place, any other to the back of the pool.
    pub open spec fn put_away(self, old: Thread<F>) -> CoreView<F> {
        if old.priority == 0 {
            CoreView { idle: Some(old), ..self }
        } else {
            CoreView { pool: self.pool.push(old), ..self }
        }
    }

    /// The view after the core has taken its next thread, with `current` as
    /// the thread that it was running, if any, held aside.
    pub open spec fn take_next(self, core: usize, now: usize, current: Option<Thread<F>>) -> CoreView<
        F,
    > {
        let p = promote_all(self.pool, now);
        match pick(p, core, current is Some && current.unwrap().run_state is Ready) {
            Pick::Same => CoreView { pool: p, running: current, idle: self.idle },
            Pick::FromPool(c) => CoreView { pool: p.remove(c), running: Some(p[c]), idle: self.idle },
            Pick::Idle => CoreView { pool: p, running: self.idle, idle: None },
        }
    }

    /// Whether the core finds a thread to run when it gives up `current`.
    pub open spec fn can_take_next(self, core: usize, now: usize, current: Option<Thread<F>>) -> bool {
        pick(
            promote_all(self.pool, now),
            core,
            current is Some && current.unwrap().run_state is Ready,
        ) is Idle ==> self.idle is Some
    }

    /// Whether the thread that runs goes on when it offers the core: no
    /// thread of the pool is ready for the core, and it is ready itself.
    pub open spec fn stays(self, core: usize, now: usize) -> bool {
        pick(promote_all(self.pool, now), core, self.running.unwrap().run_state is Ready) is Same
    }

    /// The view after the core has given up its thread and taken the next.
    pub open spec fn yield_step(self, core: usize, now: usize) -> CoreView<F> {
        let next = self.take_next(core, now, self.running);
        if pick(promote_all(self.pool, now), core, self.running.unwrap().run_state is Ready)
            is Same {
            next
        } else {
            next.put_away(self.running.unwrap())
        }
    }

    /// The view with `t` as the running thread.
    pub open spec fn with_running(self, t: Thread<F>) -> CoreView<F> {
        CoreView { running: Some(t), ..self }
    }

    /// The view after the running thread has changed its run state.
    pub open spec fn with_run_state(self, state: RunState) -> CoreView<F> {
        CoreView { running: Some(Thread { run_state: state, ..self.running.unwrap() }), ..self }
    }

    /// The view after the running thread has left for good and the core has
    /// taken the next.
    pub open spec fn exit_step(self, core: usize, now: usize) -> CoreView<F> {
        self.take_next(core, now, None)
    }
}

/// The two threads of a switch that a core has decided on: what its
/// change of stacks is handed.
pub struct Switch<F> {
    /// The thread to leave, which is put away on the other side; none where
    /// the thread that ran has ended.
    pub previous: Option<Thread<F>>,
    /// The thread to resume.
    pub next: Thread<F>,
}

/// The threads of `list` that are bound to `core` (`bound`), or the others,
/// in the order of the list.
pub open spec fn bound_to<F>(list: Seq<Thread<F>>, core: usize, bound: bool) -> Seq<Thread<F>>
    decreases list.len(),
{
    if list.len() == 0 {
        Seq::empty()
    } else if (list.last().cpu_affinity == Some(core)) == bound {
        bound_to(list.drop_last(), core, bound).push(list.last())
    } else {
        bound_to(list.drop_last(), core, bound)
    }
}

pub struct Sched<F> {
    threads: CpuMutex<Vec<Thread<F>>>,
    dying_threads: CpuMutex<Vec<Thread<F>>>,
    leaving: Vec<Leaving>,
    thread_id_counter: usize,
    time_since_boot_millies: usize,
}

impl<F> Sched<F> {
    /// The threads that no core is running, front first.
    pub closed spec fn pool(&self) -> Seq<Thread<F>> {
        self.threads.value()@
    }

    /// The threads that have exited and whose stacks are still to be freed.
    pub closed spec fn dying(&self) -> Seq<Thread<F>> {
        self.dying_threads.value()@
    }

    /// The threads that are between two cores: taken off a core by the first
    /// half of a switch, and not put away yet by the second.
    pub closed spec fn leaving(&self) -> Seq<Leaving> {
        self.leaving@
    }

    /// The id that the next spawned thread gets.
    pub closed spec fn next_id(&self) -> usize {
        self.thread_id_counter
    }

    /// Milliseconds since boot.
    pub closed spec fn now(&self) -> usize {
        self.time_since_boot_millies
    }

    /// Between two operations nobody holds the scheduler's locks, and no
    /// fallback thread is in the pool.
    pub closed spec fn wf(&self) -> bool {
        &&& self.threads.is_free()
        &&& self.dying_threads.is_free()
        &&& pool_wf(self.pool())
    }

    /// The pool and what `cpu` holds.
    pub open spec fn view_with(&self, cpu: &CPU<F>) -> CoreView<F> {
        CoreView { pool: self.pool(), running: cpu.running(), idle: cpu.idle() }
    }

    pub fn new() -> (s: Sched<F>)
        ensures
            s.wf(),
            s.pool().len() == 0,
            s.dying().len() == 0,
            s.leaving().len() == 0,
            s.next_id() == FIRST_THREAD_ID,
            s.now() == 0,
    {
        Sched {
            threads: CpuMutex::new(Vec::new()),
            dying_threads: CpuMutex::new(Vec::new()),
            leaving: Vec::new(),
            thread_id_counter: FIRST_THREAD_ID,
            time_since_boot_millies: 0,
        }
    }

    /// The current time in milliseconds since boot.
    pub fn time_since_boot(&self) -> (t: usize)
        ensures
            t == self.now(),
    {
        self.time_since_boot_millies
    }

    /// The number in the id that the next spawned thread gets.
    pub fn next_thread_id(&self) -> (n: usize)
        ensures
            n == self.next_id(),
    {
        self.thread_id_counter
    }

    /// The number of threads in the pool.
    pub fn pool_len(&self) -> (n: usize)
        ensures
            n == self.pool().len(),
    {
        self.threads.peek().len()
    }

    /// The thread at place `i` of the pool.
    pub fn pool_thread(&self, i: usize) -> (t: &Thread<F>)
        requires
            i < self.pool().len(),
        ensures
            *t == self.pool()[i as int],
    {
        &self.threads.peek()[i]
    }

    /// Puts `t` at the back of the pool, under the pool's lock.
    fn push_pool(&mut self, curcpu: usize, t: Thread<F>)
        requires
            old(self).wf(),
            t.priority > 0,
        ensures
            final(self).wf(),
            final(self).pool() == old(self).pool().push(t),
            final(self).dying() == old(self).dying(),
            final(self).next_id() == old(self).next_id(),
            final(self).now() == old(self).now(),
            final(self).leaving() == old(self).leaving(),
    {
        let mut threads = self.threads.lock(curcpu).unwrap();
        threads.deref_mut().push(t);
        threads.unlock();
    }

    /// Makes a thread that runs `f` first, with `ctx` as its prepared
    /// context, and puts it at the back of the pool.  Its id is the next
    /// unused one.
    pub fn spawn(&mut self, curcpu: usize, cpsr: &mut u32, f: F, ctx: Context) -> (tid: ThreadId)
        requires
            old(self).wf(),
            old(self).next_id() < usize::MAX,
        ensures
            final(self).wf(),
            tid == ThreadId(old(self).next_id()),
            final(self).next_id() == old(self).next_id() + 1,
            final(self).pool() == old(self).pool().push(
                Thread {
                    ctx,
                    run_state: RunState::Ready,
                    id: tid,
                    func: Some(f),
                    cpu_affinity: None,
                    priority: 1,
                },
            ),
            final(self).dying() == old(self).dying(),
            final(self).now() == old(self).now(),
            final(self).leaving() == old(self).leaving(),
            *final(cpsr) == after_section(*old(cpsr)),
    {
        let tid = ThreadId(self.thread_id_counter);
        self.thread_id_counter = self.thread_id_counter + 1;
        let t = Thread::new(tid, f, ctx);
        let ig = no_interrupts(cpsr);
        self.push_pool(curcpu, t);
        ig.release(cpsr);
        tid
    }

    /// Whether `cpu` finds a thread to run when it gives up `run_thread`:
    /// one of the pool, `run_thread` itself, or its fallback thread.
    pub fn can_schedule(&self, cpu: &CPU<F>, run_thread: Option<&Thread<F>>) -> (b: bool)
        ensures
            b == self.view_with(cpu).can_take_next(
                cpu.core_id(),
                self.now(),
                match run_thread {
                    Some(t) => Some(*t),
                    None => None,
                },
            ),
    {
        if has_ready(self.threads.peek(), cpu.id(), self.time_since_boot_millies) {
            return true;
        }
        if let Some(t) = run_thread {
            if t.is_ready() {
                return true;
            }
        }
        cpu.has_idle_thread()
    }

    /// Decides which thread `cpu` runs next.  `run_thread` is the thread
    /// that it was running, held aside by the caller; `None` says that there
    /// is none to go back to.
    ///
    /// Sleepers whose deadline has come are made ready first.  The core then
    /// takes from the pool the ready thread of the highest priority that may
    /// run on it, the one nearest the front among equals.  Where the pool
    /// has none for it, `None` tells the caller to go on with `run_thread`
    /// if that is ready, and otherwise the core's fallback thread is handed
    /// out.
    pub fn schedule_new(&mut self, cpu: &mut CPU<F>, run_thread: Option<&Thread<F>>) -> (r: Option<
        Thread<F>,
    >)
        requires
            old(self).wf(),
            old(cpu).wf(),
            old(self).view_with(old(cpu)).can_take_next(
                old(cpu).core_id(),
                old(self).now(),
                match run_thread {
                    Some(t) => Some(*t),
                    None => None,
                },
            ),
        ensures
            final(self).wf(),
            final(self).dying() == old(self).dying(),
            final(self).next_id() == old(self).next_id(),
            final(self).now() == old(self).now(),
            final(self).leaving() == old(self).leaving(),
            final(cpu).core_id() == old(cpu).core_id(),
            final(cpu).resched() == old(cpu).resched(),
            final(cpu).running() == old(cpu).running(),
            ({
                let p = promote_all(old(self).pool(), old(self).now());
                let ready = run_thread matches Some(t) && t.run_state is Ready;
                match pick(p, old(cpu).core_id(), ready) {
                    Pick::Same => r is None && final(self).pool() == p && final(cpu).idle() == old(cpu).idle(),
                    Pick::FromPool(c) => r == Some(p[c]) && p[c].priority > 0 && final(self).pool() == p.remove(c) && final(cpu).idle() == old(cpu).idle(),
                    Pick::Idle => r == old(cpu).idle() && r is Some && final(self).pool() == p
                        && final(cpu).idle() is None,
                }
            }),
            r matches Some(t) ==> t.run_state is Ready && t.may_run_on(old(cpu).core_id())
                && final(cpu).may_run(t),
            r is None ==> (run_thread matches Some(t) && t.run_state is Ready),
            final(cpu).idle() matches Some(t) ==> t.is_idle_of(old(cpu).core_id())
                && t.run_state is Ready,
    {
        let curcpuid = cpu.id();
        let now = self.time_since_boot_millies;
        let ghost p = promote_all(self.pool(), now);
        let mut threads = self.threads.lock(curcpuid).unwrap();
        let pool = threads.deref_mut();
        let chosen = scan(pool, curcpuid, now);
        let taken = match chosen {
            Some(index) => {
                proof {
                    lemma_choice_is(p, curcpuid, index as int);
                    assert(p[index as int].priority > 0) by {
                        assert(old(self).pool()[index as int].priority > 0);
                    }
                }
                Some(pool.remove(index))
            },
            None => None,
        };
        threads.unlock();
        if taken.is_some() {
            return taken;
        }
        if let Some(run_thread) = run_thread {
            if run_thread.is_ready() {
                return None;
            }
        }
        cpu.take_idle_thread()
    }

    /// Whether the bookkeeping of a switch can be done for these two threads
    /// on `cpu`: `current` may run there, and `previous`, if it is a
    /// fallback thread, is this core's, ready, and the only one.
    pub open spec fn can_finish(cpu: &CPU<F>, previous: Option<Thread<F>>, current: Thread<F>) -> bool {
        &&& cpu.may_run(current)
        &&& previous matches Some(o) ==> (o.priority == 0 ==> o.is_idle_of(cpu.core_id())
            && o.run_state is Ready && cpu.idle() is None && current.priority != 0)
    }

    /// [`Sched::can_finish`], for a caller that has to find out.
    pub fn can_finish_switch(cpu: &CPU<F>, previous: Option<&Thread<F>>, current: &Thread<F>) -> (b:
        bool)
        ensures
            b == Self::can_finish(
                cpu,
                match previous {
                    Some(t) => Some(*t),
                    None => None,
                },
                *current,
            ),
    {
        if !cpu.can_run(current) {
            return false;
        }
        match previous {
            Some(o) => {
                if o.priority == 0 {
                    let bound = match o.cpu_affinity {
                        Some(c) => c == cpu.id(),
                        None => false,
                    };
                    bound && o.is_ready() && !cpu.has_idle_thread() && current.priority != 0
                } else {
                    true
                }
            },
            None => true,
        }
    }

    /// The bookkeeping of a switch, done on the stack of the thread that has
    /// just been resumed: `current` becomes the running thread of `cpu`, and
    /// `previous`, the thread that was left, is put away.  A fallback thread goes
    /// to its resting place, any other to the back of the pool.  A thread that
    /// was entered as leaving is taken off that list, and is put away ready if
    /// it has been woken since.
    pub fn finish_switch(&mut self, cpu: &mut CPU<F>, previous: Option<Thread<F>>, current: Thread<F>)
        requires
            old(self).wf(),
            old(cpu).wf(),
            Self::can_finish(old(cpu), previous, current),
        ensures
            final(self).wf(),
            final(cpu).wf(),
            final(self).view_with(final(cpu)) == (match previous {
                Some(o) => (CoreView {
                    running: Some(current),
                    ..old(self).view_with(old(cpu))
                }).put_away(settled(o, old(self).leaving())),
                None => CoreView { running: Some(current), ..old(self).view_with(old(cpu)) },
            }),
            final(self).leaving() == (match previous {
                Some(o) => without_leaving(old(self).leaving(), o.id),
                None => old(self).leaving(),
            }),
            final(self).dying() == old(self).dying(),
            final(self).next_id() == old(self).next_id(),
            final(self).now() == old(self).now(),
            final(cpu).core_id() == old(cpu).core_id(),
            final(cpu).resched() == old(cpu).resched(),
    {
        cpu.set_running_thread(current);
        if let Some(previous) = previous {
            let mut previous = previous;
            let woken = take_leaving(&mut self.leaving, previous.id);
            if let Some(true) = woken {
                previous.run_state = RunState::Ready;
            }
            if previous.priority == 0 {
                cpu.set_idle_thread(previous);
            } else {
                self.push_pool(cpu.id(), previous);
            }
        }
    }

    /// What a new thread does first, on its own stack, the first time it is
    /// given a core: it takes out what it is to run, becomes the running
    /// thread of `cpu`, and puts away `old_thread`, the thread that was left.
    /// The caller then lets interrupts in, runs what is returned, and ends
    /// the thread with [`Sched::exit_thread`].
    pub fn thread_start(
        &mut self,
        cpu: &mut CPU<F>,
        old_thread: Option<Thread<F>>,
        new_thread: Thread<F>,
    ) -> (f: F)
        requires
            old(self).wf(),
            old(cpu).wf(),
            new_thread.func is Some,
            Self::can_finish(old(cpu), old_thread, new_thread),
        ensures
            Some(f) == new_thread.func,
            final(self).wf(),
            final(cpu).wf(),
            final(self).view_with(final(cpu)) == ({
                let started = Thread { func: None, ..new_thread };
                match old_thread {
                    Some(o) => (CoreView {
                        running: Some(started),
                        ..old(self).view_with(old(cpu))
                    }).put_away(settled(o, old(self).leaving())),
                    None => CoreView { running: Some(started), ..old(self).view_with(old(cpu)) },
                }
            }),
            final(self).leaving() == (match old_thread {
                Some(o) => without_leaving(old(self).leaving(), o.id),
                None => old(self).leaving(),
            }),
            final(self).dying() == old(self).dying(),
            final(self).next_id() == old(self).next_id(),
            final(self).now() == old(self).now(),
            final(cpu).core_id() == old(cpu).core_id(),
            final(cpu).resched() == old(cpu).resched(),
    {
        let mut new_thread = new_thread;
        let newthreadfun = new_thread.func.take().unwrap();
        self.finish_switch(cpu, old_thread, new_thread);
        newthreadfun
    }

    /// Takes the running thread off `cpu` for good: it is kept, bound to
    /// this core, on the list of threads whose stacks are still to be freed.
    /// The stack cannot be freed yet, since the thread is still on it.
    pub fn retire_thread(&mut self, cpu: &mut CPU<F>)
        requires
            old(self).wf(),
            old(cpu).running() is Some,
        ensures
            final(self).wf(),
            final(self).dying() == old(self).dying().push(
                Thread {
                    cpu_affinity: Some(old(cpu).core_id()),
                    ..old(cpu).running().unwrap()
                },
            ),
            final(self).pool() == old(self).pool(),
            final(self).next_id() == old(self).next_id(),
            final(self).now() == old(self).now(),
            final(self).leaving() == old(self).leaving(),
            final(cpu).running() is None,
            final(cpu).idle() == old(cpu).idle(),
            final(cpu).core_id() == old(cpu).core_id(),
            final(cpu).resched() == old(cpu).resched(),
    {
        let mut curr_thread = cpu.take_running_thread();
        let curcpuid = cpu.id();
        let mut threads = self.dying_threads.lock(curcpuid).unwrap();
        curr_thread.cpu_affinity = Some(curcpuid);
        threads.deref_mut().push(curr_thread);
        threads.unlock();
    }

    /// Hands out the ended threads whose stacks can be freed by `curcpu`.
    ///
    /// A thread ends on the core that it is bound to from then on, and it is
    /// still on its stack when it is put on the list.  Once that core runs
    /// another thread, the ended one is on no core any more.  So a core
    /// frees its own dead: the caller runs on `curcpu`, and gets the ended
    /// threads that are bound to it, in the order in which they ended.  The
    /// others stay on the list.
    pub fn reap_dying(&mut self, curcpu: usize) -> (freed: Vec<Thread<F>>)
        requires
            old(self).wf(),
        ensures
            final(self).wf(),
            freed@ == bound_to(old(self).dying(), curcpu, true),
            final(self).dying() == bound_to(old(self).dying(), curcpu, false),
            final(self).pool() == old(self).pool(),
            final(self).next_id() == old(self).next_id(),
            final(self).now() == old(self).now(),
            final(self).leaving() == old(self).leaving(),
    {
        let mut freed: Vec<Thread<F>> = Vec::new();
        let mut kept: Vec<Thread<F>> = Vec::new();
        let mut threads = self.dying_threads.lock(curcpu).unwrap();
        let dying = threads.deref_mut();
        let ghost all = dying@;
        let ghost mut done: int = 0;
        while dying.len() > 0
            invariant
                0 <= done <= all.len(),
                dying@ == all.skip(done),
                freed@ == bound_to(all.take(done), curcpu, true),
                kept@ == bound_to(all.take(done), curcpu, false),
            decreases dying@.len(),
        {
            let t = dying.remove(0);
            proof {
                assert(t == all[done]);
                assert(all.take(done + 1).drop_last() =~= all.take(done));
                assert(all.take(done + 1).last() == t);
                assert(dying@ =~= all.skip(done + 1));
                done = done + 1;
            }
            if t.cpu_affinity == Some(curcpu) {
                freed.push(t);
            } else {
                kept.push(t);
            }
        }
        assert(all.take(done) =~= all);
        *dying = kept;
        threads.unlock();
        freed
    }

    /// The number of threads that have ended and whose stacks are still to
    /// be freed.
    pub fn dying_len(&self) -> (n: usize)
        ensures
            n == self.dying().len(),
    {
        self.dying_threads.peek().len()
    }

    /// The running thread of `cpu` ends.  It is kept, bound to this core,
    /// on the list of threads whose stacks are still to be freed, and is
    /// never in the pool again; the core goes on with the next thread.
    /// Interrupts are off afterwards: the thread that is resumed lets them
    /// in again.
    pub fn exit_thread(&mut self, cpu: &mut CPU<F>, cpsr: &mut u32)
        requires
            old(self).wf(),
            old(cpu).wf(),
            old(cpu).running() is Some,
            old(self).view_with(old(cpu)).can_take_next(old(cpu).core_id(), old(self).now(), None),
        ensures
            final(self).wf(),
            final(cpu).wf(),
            final(self).view_with(final(cpu)) == old(self).view_with(old(cpu)).exit_step(
                old(cpu).core_id(),
                old(self).now(),
            ),
            final(self).dying() == old(self).dying().push(
                Thread {
                    cpu_affinity: Some(old(cpu).core_id()),
                    ..old(cpu).running().unwrap()
                },
            ),
            final(cpu).running() matches Some(t) && t.run_state is Ready,
            final(self).next_id() == old(self).next_id(),
            final(self).now() == old(self).now(),
            final(self).leaving() == old(self).leaving(),
            final(cpu).core_id() == old(cpu).core_id(),
            final(cpu).resched() == old(cpu).resched(),
            *final(cpsr) == spec_set_interrupts(*old(cpsr), false),
    {
        let _ig = no_interrupts(cpsr);
        let sw = self.begin_exit(cpu);
        let (old, current) = switch_context(sw.previous, sw.next);
        self.finish_switch(cpu, old, current);
    }

    /// The running thread of `cpu` offers the core to the others, with
    /// interrupts off for the length of the operation.
    pub fn yield_thread(&mut self, cpu: &mut CPU<F>, cpsr: &mut u32)
        requires
            old(self).wf(),
            old(cpu).wf(),
            old(cpu).running() is Some,
            old(self).view_with(old(cpu)).can_take_next(
                old(cpu).core_id(),
                old(self).now(),
                old(cpu).running(),
            ),
        ensures
            final(self).wf(),
            final(cpu).wf(),
            final(self).view_with(final(cpu)) == old(self).view_with(old(cpu)).yield_step(
                old(cpu).core_id(),
                old(self).now(),
            ),
            final(cpu).running() matches Some(t) && t.run_state is Ready,
            final(self).dying() == old(self).dying(),
            final(self).next_id() == old(self).next_id(),
            final(self).now() == old(self).now(),
            final(self).leaving() == old(self).leaving(),
            final(cpu).core_id() == old(cpu).core_id(),
            final(cpu).resched() == old(cpu).resched(),
            *final(cpsr) == after_section(*old(cpsr)),
    {
        let ig = no_interrupts(cpsr);
        self.yeild_thread_no_intr(cpu);
        ig.release(cpsr);
    }

    /// The first half of a yield, up to the change of stacks: the core
    /// takes its next thread.  Where that is the thread it was running,
    /// nothing else happens and there is nothing to switch.  Otherwise the
    /// core is left without a running thread, and the two threads are handed
    /// out: the one that ran, to be put away by [`Sched::finish_switch`] on
    /// the other side of the switch, and the one to resume.
    pub fn begin_yield(&mut self, cpu: &mut CPU<F>) -> (r: Option<Switch<F>>)
        requires
            old(self).wf(),
            old(cpu).wf(),
            old(cpu).running() is Some,
            old(self).view_with(old(cpu)).can_take_next(
                old(cpu).core_id(),
                old(self).now(),
                old(cpu).running(),
            ),
        ensures
            final(self).wf(),
            final(cpu).wf(),
            ({
                let v = old(self).view_with(old(cpu));
                let next = v.take_next(old(cpu).core_id(), old(self).now(), v.running);
                if v.stays(old(cpu).core_id(), old(self).now()) {
                    r is None && final(self).view_with(final(cpu)) == next
                } else {
                    r == Some(Switch { previous: v.running, next: next.running.unwrap() }) && final(self).view_with(final(cpu)) == (CoreView { running: None, ..next })
                }
            }),
            r matches Some(sw) ==> sw.next.run_state is Ready && Self::can_finish(
                final(cpu),
                sw.previous,
                sw.next,
            ),
            final(self).dying() == old(self).dying(),
            final(self).next_id() == old(self).next_id(),
            final(self).now() == old(self).now(),
            r is None ==> final(self).leaving() == old(self).leaving(),
            r matches Some(sw) ==> final(self).leaving() == old(self).leaving().push(
                Leaving { id: sw.previous.unwrap().id, woken: false },
            ),
            final(cpu).core_id() == old(cpu).core_id(),
            final(cpu).resched() == old(cpu).resched(),
    {
        let curr_thread = cpu.take_running_thread();
        let new_thread = self.schedule_new(cpu, Some(&curr_thread));
        match new_thread {
            None => {
                cpu.set_running_thread(curr_thread);
                None
            },
            Some(next) => {
                proof {
                    let p = promote_all(old(self).pool(), old(self).now());
                    let ready = curr_thread.run_state is Ready;
                    if curr_thread.priority == 0 {
                        assert(ready);
                        assert(pick(p, old(cpu).core_id(), ready) is FromPool);
                        assert(cpu.idle() is None);
                        assert(next.priority != 0);
                    }
                }
                self.leaving.push(Leaving { id: curr_thread.id, woken: false });
                Some(Switch { previous: Some(curr_thread), next })
            },
        }
    }

    /// [`Sched::yield_thread`] for a caller that has interrupts off already.
    ///
    /// The core takes its next thread.  Where that is the thread it was
    /// running, nothing else happens.  Otherwise the thread it was running
    /// is put away, whatever its run state, and the next one runs.
    pub fn yeild_thread_no_intr(&mut self, cpu: &mut CPU<F>)
        requires
            old(self).wf(),
            old(cpu).wf(),
            old(cpu).running() is Some,
            old(self).view_with(old(cpu)).can_take_next(
                old(cpu).core_id(),
                old(self).now(),
                old(cpu).running(),
            ),
        ensures
            final(self).wf(),
            final(cpu).wf(),
            final(self).view_with(final(cpu)) == old(self).view_with(old(cpu)).yield_step(
                old(cpu).core_id(),
                old(self).now(),
            ),
            final(cpu).running() matches Some(t) && t.run_state is Ready,
            final(self).dying() == old(self).dying(),
            final(self).next_id() == old(self).next_id(),
            final(self).now() == old(self).now(),
            final(self).leaving() == old(self).leaving(),
            final(cpu).core_id() == old(cpu).core_id(),
            final(cpu).resched() == old(cpu).resched(),
    {
        match self.begin_yield(cpu) {
            None => {},
            Some(sw) => {
                proof {
                    lemma_enter_then_settle(old(self).leaving(), sw.previous.unwrap());
                }
                let (old, current) = switch_context(sw.previous, sw.next);
                self.finish_switch(cpu, old, current);
            },
        }
    }

    /// The first half of [`Sched::block`]: the running thread is marked as
    /// waiting, and the core takes its next thread, as in
    /// [`Sched::begin_yield`].  There is always a switch to make.
    pub fn begin_block(&mut self, cpu: &mut CPU<F>) -> (sw: Switch<F>)
        requires
            old(self).wf(),
            old(cpu).wf(),
            old(cpu).running() matches Some(t) && t.priority != 0,
            old(self).view_with(old(cpu)).with_run_state(RunState::Blocked).can_take_next(
                old(cpu).core_id(),
                old(self).now(),
                Some(Thread { run_state: RunState::Blocked, ..old(cpu).running().unwrap() }),
            ),
        ensures
            final(self).wf(),
            final(cpu).wf(),
            ({
                let v = old(self).view_with(old(cpu)).with_run_state(RunState::Blocked);
                let next = v.take_next(old(cpu).core_id(), old(self).now(), v.running);
                sw == (Switch { previous: v.running, next: next.running.unwrap() }) && final(self).view_with(final(cpu)) == (CoreView { running: None, ..next })
            }),
            sw.next.run_state is Ready,
            Self::can_finish(final(cpu), sw.previous, sw.next),
            final(self).dying() == old(self).dying(),
            final(self).next_id() == old(self).next_id(),
            final(self).now() == old(self).now(),
            final(self).leaving() == old(self).leaving().push(
                Leaving { id: sw.previous.unwrap().id, woken: false },
            ),
            final(cpu).core_id() == old(cpu).core_id(),
            final(cpu).resched() == old(cpu).resched(),
    {
        cpu.set_run_state(RunState::Blocked);
        self.begin_yield(cpu).unwrap()
    }

    /// The first half of [`Sched::sleep`]: the running thread is marked as
    /// asleep until the clock has moved on by `millis` milliseconds, and the
    /// core takes its next thread, as in [`Sched::begin_yield`].  There is
    /// always a switch to make.
    pub fn begin_sleep(&mut self, cpu: &mut CPU<F>, millis: u32) -> (sw: Switch<F>)
        requires
            old(self).wf(),
            old(cpu).wf(),
            old(cpu).running() matches Some(t) && t.priority != 0,
            old(self).now() + millis <= usize::MAX,
            old(self).view_with(old(cpu)).with_run_state(
                RunState::WakeOn((old(self).now() + millis) as usize),
            ).can_take_next(
                old(cpu).core_id(),
                old(self).now(),
                Some(
                    Thread {
                        run_state: RunState::WakeOn((old(self).now() + millis) as usize),
                        ..old(cpu).running().unwrap()
                    },
                ),
            ),
        ensures
            final(self).wf(),
            final(cpu).wf(),
            ({
                let v = old(self).view_with(old(cpu)).with_run_state(
                    RunState::WakeOn((old(self).now() + millis) as usize),
                );
                let next = v.take_next(old(cpu).core_id(), old(self).now(), v.running);
                sw == (Switch { previous: v.running, next: next.running.unwrap() }) && final(self).view_with(final(cpu)) == (CoreView { running: None, ..next })
            }),
            sw.next.run_state is Ready,
            Self::can_finish(final(cpu), sw.previous, sw.next),
            final(self).dying() == old(self).dying(),
            final(self).next_id() == old(self).next_id(),
            final(self).now() == old(self).now(),
            final(self).leaving() == old(self).leaving().push(
                Leaving { id: sw.previous.unwrap().id, woken: false },
            ),
            final(cpu).core_id() == old(cpu).core_id(),
            final(cpu).resched() == old(cpu).resched(),
    {
        let deadline = self.time_since_boot_millies + (millis as usize);
        cpu.set_run_state(RunState::WakeOn(deadline));
        self.begin_yield(cpu).unwrap()
    }

    /// The first half of [`Sched::exit_thread`]: the running thread is put
    /// on the list of threads whose stacks are still to be freed, and the
    /// core takes its next thread.  There is always a switch to make, and
    /// nothing to put away on the other side.
    pub fn begin_exit(&mut self, cpu: &mut CPU<F>) -> (sw: Switch<F>)
        requires
            old(self).wf(),
            old(cpu).wf(),
            old(cpu).running() is Some,
            old(self).view_with(old(cpu)).can_take_next(old(cpu).core_id(), old(self).now(), None),
        ensures
            final(self).wf(),
            final(cpu).wf(),
            ({
                let next = old(self).view_with(old(cpu)).exit_step(
                    old(cpu).core_id(),
                    old(self).now(),
                );
                sw == (Switch { previous: None, next: next.running.unwrap() }) && final(self).view_with(final(cpu)) == (CoreView { running: None, ..next })
            }),
            sw.next.run_state is Ready,
            Self::can_finish(final(cpu), sw.previous, sw.next),
            final(self).dying() == old(self).dying().push(
                Thread {
                    cpu_affinity: Some(old(cpu).core_id()),
                    ..old(cpu).running().unwrap()
                },
            ),
            final(self).next_id() == old(self).next_id(),
            final(self).now() == old(self).now(),
            final(self).leaving() == old(self).leaving(),
            final(cpu).core_id() == old(cpu).core_id(),
            final(cpu).resched() == old(cpu).resched(),
    {
        self.retire_thread(cpu);
        let next = self.schedule_new(cpu, None).unwrap();
        Switch { previous: None, next }
    }

    /// The running thread of `cpu` waits until it is woken by name.
    pub fn block(&mut self, cpu: &mut CPU<F>, cpsr: &mut u32)
        requires
            old(self).wf(),
            old(cpu).wf(),
            old(cpu).running() matches Some(t) && t.priority != 0,
            old(self).view_with(old(cpu)).with_run_state(RunState::Blocked).can_take_next(
                old(cpu).core_id(),
                old(self).now(),
                Some(Thread { run_state: RunState::Blocked, ..old(cpu).running().unwrap() }),
            ),
        ensures
            final(self).wf(),
            final(cpu).wf(),
            final(self).view_with(final(cpu)) == old(self).view_with(old(cpu)).with_run_state(
                RunState::Blocked,
            ).yield_step(old(cpu).core_id(), old(self).now()),
            final(cpu).running() matches Some(t) && t.run_state is Ready,
            final(self).dying() == old(self).dying(),
            final(self).next_id() == old(self).next_id(),
            final(self).now() == old(self).now(),
            final(self).leaving() == old(self).leaving(),
            final(cpu).core_id() == old(cpu).core_id(),
            final(cpu).resched() == old(cpu).resched(),
            *final(cpsr) == after_section(*old(cpsr)),
    {
        let ig = no_interrupts(cpsr);
        let sw = self.begin_block(cpu);
        proof {
            lemma_enter_then_settle(old(self).leaving(), sw.previous.unwrap());
        }
        let (old, current) = switch_context(sw.previous, sw.next);
        self.finish_switch(cpu, old, current);
        ig.release(cpsr);
    }

    /// The running thread of `cpu` sleeps until the clock has moved on by
    /// `millis` milliseconds at least.
    pub fn sleep(&mut self, cpu: &mut CPU<F>, cpsr: &mut u32, millis: u32)
        requires
            old(self).wf(),
            old(cpu).wf(),
            old(cpu).running() matches Some(t) && t.priority != 0,
            old(self).now() + millis <= usize::MAX,
            old(self).view_with(old(cpu)).with_run_state(
                RunState::WakeOn((old(self).now() + millis) as usize),
            ).can_take_next(
                old(cpu).core_id(),
                old(self).now(),
                Some(
                    Thread {
                        run_state: RunState::WakeOn((old(self).now() + millis) as usize),
                        ..old(cpu).running().unwrap()
                    },
                ),
            ),
        ensures
            final(self).wf(),
            final(cpu).wf(),
            final(self).view_with(final(cpu)) == old(self).view_with(old(cpu)).with_run_state(
                RunState::WakeOn((old(self).now() + millis) as usize),
            ).yield_step(old(cpu).core_id(), old(self).now()),
            final(cpu).running() matches Some(t) && t.run_state is Ready,
            final(self).dying() == old(self).dying(),
            final(self).next_id() == old(self).next_id(),
            final(self).now() == old(self).now(),
            final(self).leaving() == old(self).leaving(),
            final(cpu).core_id() == old(cpu).core_id(),
            final(cpu).resched() == old(cpu).resched(),
            *final(cpsr) == after_section(*old(cpsr)),
    {
        let ig = no_interrupts(cpsr);
        let sw = self.begin_sleep(cpu, millis);
        proof {
            lemma_enter_then_settle(old(self).leaving(), sw.previous.unwrap());
        }
        let (old, current) = switch_context(sw.previous, sw.next);
        self.finish_switch(cpu, old, current);
        ig.release(cpsr);
    }

    /// Takes the running thread of `cpu` out of the running for a core: a
    /// ready thread becomes blocked, any other stays as it is.  The thread
    /// keeps the core until it yields.
    pub fn unschedule_no_intr(&mut self, cpu: &mut CPU<F>)
        requires
            old(cpu).wf(),
            old(cpu).running() matches Some(t) && t.priority != 0,
        ensures
            final(cpu).wf(),
            final(cpu).running() == Some(old(cpu).running().unwrap().unscheduled()),
            final(cpu).idle() == old(cpu).idle(),
            final(cpu).core_id() == old(cpu).core_id(),
            final(cpu).resched() == old(cpu).resched(),
            *final(self) == *old(self),
    {
        let ready = cpu.get_running_thread().as_ref().unwrap().is_ready();
        if ready {
            cpu.set_run_state(RunState::Blocked);
        }
    }

    /// [`Sched::block`] for a caller that has interrupts off already.  A
    /// thread that is not ready is not changed: it gives up the core as it
    /// is.
    pub fn block_no_intr(&mut self, cpu: &mut CPU<F>)
        requires
            old(self).wf(),
            old(cpu).wf(),
            old(cpu).running() matches Some(t) && t.priority != 0,
            old(self).view_with(old(cpu)).with_running(
                old(cpu).running().unwrap().unscheduled(),
            ).can_take_next(
                old(cpu).core_id(),
                old(self).now(),
                Some(old(cpu).running().unwrap().unscheduled()),
            ),
        ensures
            final(self).wf(),
            final(cpu).wf(),
            final(self).view_with(final(cpu)) == old(self).view_with(old(cpu)).with_running(
                old(cpu).running().unwrap().unscheduled(),
            ).yield_step(old(cpu).core_id(), old(self).now()),
            final(cpu).running() matches Some(t) && t.run_state is Ready,
            final(self).dying() == old(self).dying(),
            final(self).next_id() == old(self).next_id(),
            final(self).now() == old(self).now(),
            final(self).leaving() == old(self).leaving(),
            final(cpu).core_id() == old(cpu).core_id(),
            final(cpu).resched() == old(cpu).resched(),
    {
        self.unschedule_no_intr(cpu);
        self.yeild_thread_no_intr(cpu);
    }

    /// Makes the thread called `tid` ready, if it is in the pool, with
    /// interrupts off for the length of the operation.
    pub fn wakeup(&mut self, curcpu: usize, cpsr: &mut u32, tid: ThreadId)
        requires
            old(self).wf(),
        ensures
            final(self).wf(),
            has_no_thread(old(self).pool(), tid) ==> final(self).pool() == old(self).pool(),
            forall|i: int|
                is_first_with_id(old(self).pool(), tid, i) ==> final(self).pool() == old(self).pool().update(i, readied(old(self).pool()[i])),
            final(self).dying() == old(self).dying(),
            final(self).next_id() == old(self).next_id(),
            final(self).now() == old(self).now(),
            final(self).leaving() == (if has_no_thread(old(self).pool(), tid) {
                noted(old(self).leaving(), tid)
            } else {
                old(self).leaving()
            }),
            *final(cpsr) == after_section(*old(cpsr)),
    {
        let ig = no_interrupts(cpsr);
        self.wakeup_no_intr(curcpu, tid);
        ig.release(cpsr);
    }

    /// [`Sched::wakeup`] for a caller that has interrupts off already.
    ///
    /// The first thread of the pool that is called `tid` becomes ready,
    /// whatever it was waiting for.  A thread that is between two cores is
    /// marked, and is ready when it is put away.  A thread that is neither,
    /// since it is running or has exited, is not touched.
    pub fn wakeup_no_intr(&mut self, curcpu: usize, tid: ThreadId)
        requires
            old(self).wf(),
        ensures
            final(self).wf(),
            has_no_thread(old(self).pool(), tid) ==> final(self).pool() == old(self).pool(),
            forall|i: int|
                is_first_with_id(old(self).pool(), tid, i) ==> final(self).pool() == old(self).pool().update(i, readied(old(self).pool()[i])),
            final(self).dying() == old(self).dying(),
            final(self).next_id() == old(self).next_id(),
            final(self).now() == old(self).now(),
            final(self).leaving() == (if has_no_thread(old(self).pool(), tid) {
                noted(old(self).leaving(), tid)
            } else {
                old(self).leaving()
            }),
    {
        let mut threads = self.threads.lock(curcpu).unwrap();
        let found = wake_first(threads.deref_mut(), tid);
        threads.unlock();
        if found.is_none() {
            note_woken(&mut self.leaving, tid);
        }
        proof {
            let pool = old(self).pool();
            match found {
                Some(k) => {
                    assert forall|i: int| is_first_with_id(pool, tid, i) implies i == k by {
                        if i < k {
                            assert(pool[i].id != tid);
                        } else if k < i {
                            assert(pool[k as int].id != tid);
                        }
                    }
                },
                None => {
                    assert forall|i: int| is_first_with_id(pool, tid, i) implies false by {
                        assert(pool[i].id != tid);
                    }
                },
            }
        }
    }

    /// The id of the running thread of `cpu`.
    pub fn get_current_thread(&self, cpu: &CPU<F>) -> (tid: ThreadId)
        requires
            cpu.running() is Some,
        ensures
            tid == cpu.running().unwrap().id,
    {
        cpu.get_running_thread().as_ref().unwrap().id
    }

    /// One tick of the timer: the clock moves on by the length of a tick.
    pub fn clock(&mut self)
        requires
            old(self).now() + DELTA_MILLIS <= usize::MAX,
        ensures
            final(self).now() == old(self).now() + DELTA_MILLIS,
            final(self).pool() == old(self).pool(),
            final(self).leaving() == old(self).leaving(),
            final(self).dying() == old(self).dying(),
            final(self).next_id() == old(self).next_id(),
            old(self).wf() ==> final(self).wf(),
    {
        self.time_since_boot_millies = self.time_since_boot_millies + DELTA_MILLIS;
    }
}

} // verus!
