//! A counting semaphore.
//!
//! A unit that is given back while threads wait is not counted: it goes to
//! the thread that has waited longest, which is woken by name.  So no unit
//! is taken twice and none is lost, and the waiters are served in the order
//! in which they came.

use vstd::prelude::*;
use std::collections::VecDeque;
use crate::cpu::CPU;
use crate::platform::intr::{after_section, InterruptGuard};
use crate::platform::ThreadId;
use crate::sched::select::{
    has_no_thread, is_first_with_id, lemma_enter_then_settle, noted, readied, Leaving,
};
use crate::arch::arm::thread::switch_context;
use crate::sched::{CoreView, Sched, Switch};
use crate::sync::CpuMutex;
use crate::thread::Thread;

verus! {

/// What a semaphore holds: the free units, and the threads that wait for
/// one, the longest wait first.
pub struct SemState {
    pub counter: nat,
    pub waiting: Seq<ThreadId>,
}

/// What can happen to a semaphore.
pub enum SemEvent {
    /// The thread of this name asks for a unit.
    Acquire(ThreadId),
    /// A unit is given back.
    Release,
}

impl SemState {
    pub open spec fn new(count: nat) -> SemState {
        SemState { counter: count, waiting: Seq::empty() }
    }

    /// Free units and waiting threads are never there together.
    pub open spec fn wf(self) -> bool {
        self.counter > 0 ==> self.waiting.len() == 0
    }

    /// Whether a thread that asks now has to wait.
    pub open spec fn must_wait(self) -> bool {
        self.counter == 0
    }

    /// The state after `tid` has asked for a unit: it has taken one, or it
    /// waits at the back.
    pub open spec fn acquire(self, tid: ThreadId) -> SemState {
        if self.counter > 0 {
            SemState { counter: (self.counter - 1) as nat, ..self }
        } else {
            SemState { waiting: self.waiting.push(tid), ..self }
        }
    }

    /// The thread that the next unit given back goes to.
    pub open spec fn next_waiter(self) -> Option<ThreadId> {
        if self.waiting.len() > 0 {
            Some(self.waiting[0])
        } else {
            None
        }
    }

    /// The state after a unit has been given back: it has gone to the first
    /// waiter, or it is counted.
    pub open spec fn release(self) -> SemState {
        if self.waiting.len() > 0 {
            SemState { waiting: self.waiting.drop_first(), ..self }
        } else {
            SemState { counter: self.counter + 1, ..self }
        }
    }

    pub open spec fn step(self, e: SemEvent) -> SemState {
        match e {
            SemEvent::Acquire(tid) => self.acquire(tid),
            SemEvent::Release => self.release(),
        }
    }

    /// The state after the events of `trace`, in turn.
    pub open spec fn run(self, trace: Seq<SemEvent>) -> SemState
        decreases trace.len(),
    {
        if trace.len() == 0 {
            self
        } else {
            self.run(trace.drop_last()).step(trace.last())
        }
    }

    /// How many requests have been granted in the course of `trace`: at
    /// once, or by a unit handed to a waiter.
    pub open spec fn granted(self, trace: Seq<SemEvent>) -> nat
        decreases trace.len(),
    {
        if trace.len() == 0 {
            0
        } else {
            let before = self.run(trace.drop_last());
            let now: nat = match trace.last() {
                SemEvent::Acquire(_) => if before.must_wait() {
                    0
                } else {
                    1
                },
                SemEvent::Release => if before.waiting.len() > 0 {
                    1
                } else {
                    0
                },
            };
            self.granted(trace.drop_last()) + now
        }
    }

    /// The threads that had to wait in the course of `trace`, in the order
    /// in which they asked.
    pub open spec fn blocked(self, trace: Seq<SemEvent>) -> Seq<ThreadId>
        decreases trace.len(),
    {
        if trace.len() == 0 {
            Seq::empty()
        } else {
            let before = self.run(trace.drop_last());
            match trace.last() {
                SemEvent::Acquire(tid) if before.must_wait() => self.blocked(
                    trace.drop_last(),
                ).push(tid),
                _ => self.blocked(trace.drop_last()),
            }
        }
    }

    /// The threads that were woken in the course of `trace`, in the order in
    /// which they were woken.
    pub open spec fn woken(self, trace: Seq<SemEvent>) -> Seq<ThreadId>
        decreases trace.len(),
    {
        if trace.len() == 0 {
            Seq::empty()
        } else {
            let before = self.run(trace.drop_last());
            match trace.last() {
                SemEvent::Release if before.waiting.len() > 0 => self.woken(trace.drop_last()).push(
                    before.waiting[0],
                ),
                _ => self.woken(trace.drop_last()),
            }
        }
    }
}

/// How many units were given back in the course of `trace`.
pub open spec fn releases(trace: Seq<SemEvent>) -> nat
    decreases trace.len(),
{
    if trace.len() == 0 {
        0
    } else {
        releases(trace.drop_last()) + if trace.last() is Release {
            1nat
        } else {
            0nat
        }
    }
}

/// No unit is made and none is lost: whatever happens, the requests granted
/// and the units still free add up to the units there were and the units
/// given back.  So never more requests are granted than units were there at
/// first and have been given back since.
pub proof fn law_units_are_conserved(s: SemState, trace: Seq<SemEvent>)
    requires
        s.wf(),
    ensures
        s.run(trace).wf(),
        s.granted(trace) + s.run(trace).counter == s.counter + releases(trace),
        s.granted(trace) <= s.counter + releases(trace),
    decreases trace.len(),
{
    if trace.len() > 0 {
        law_units_are_conserved(s, trace.drop_last());
    }
}

/// First come, first served.  Take the threads that waited at the start and
/// after them the threads that had to wait since, in the order in which they
/// asked.  The threads woken so far are the first of that line, in that
/// order, and the rest of the line is what still waits.  So of two threads
/// in the line the one that asked first is woken by the earlier release.
pub proof fn law_waiters_are_served_in_order(s: SemState, trace: Seq<SemEvent>)
    requires
        s.wf(),
    ensures
        s.run(trace).wf(),
        s.woken(trace).len() <= (s.waiting + s.blocked(trace)).len(),
        s.woken(trace) == (s.waiting + s.blocked(trace)).take(s.woken(trace).len() as int),
        s.run(trace).waiting == (s.waiting + s.blocked(trace)).skip(s.woken(trace).len() as int),
    decreases trace.len(),
{
    if trace.len() == 0 {
        assert((s.waiting + s.blocked(trace)).take(0) =~= s.woken(trace));
        assert((s.waiting + s.blocked(trace)).skip(0) =~= s.waiting);
    } else {
        let prev = trace.drop_last();
        law_waiters_are_served_in_order(s, prev);
        let line = s.waiting + s.blocked(prev);
        let n = s.woken(prev).len() as int;
        let before = s.run(prev);
        match trace.last() {
            SemEvent::Acquire(tid) => {
                if before.must_wait() {
                    let line2 = s.waiting + s.blocked(trace);
                    assert(line2 =~= line.push(tid));
                    assert(line2.take(n) =~= line.take(n));
                    assert(line2.skip(n) =~= line.skip(n).push(tid));
                }
            },
            SemEvent::Release => {
                if before.waiting.len() > 0 {
                    assert(before.waiting[0] == line[n]);
                    assert(line.take(n + 1) =~= line.take(n).push(line[n]));
                    assert(line.skip(n + 1) =~= line.skip(n).drop_first());
                }
            },
        }
    }
}

pub struct Semaphore {
    sema: CpuMutex<InterruptGuard<SemaphoreImpl>>,
}

/// The holder of a unit; it gives the unit back with
/// [`SemaphoreGuard::release`].
pub struct SemaphoreGuard {
    held: bool,
}

impl Semaphore {
    pub closed spec fn state(&self) -> SemState {
        self.sema.value().value().state()
    }

    /// Between two operations nobody holds the semaphore's lock, and free
    /// units and waiting threads are not there together.
    pub closed spec fn wf(&self) -> bool {
        self.sema.is_free() && self.state().wf()
    }

    pub fn new(count: usize) -> (s: Semaphore)
        ensures
            s.wf(),
            s.state() == SemState::new(count as nat),
    {
        Semaphore { sema: CpuMutex::new(InterruptGuard::new(SemaphoreImpl::new(count))) }
    }

    /// The free units.
    pub fn count(&self) -> (n: usize)
        ensures
            n == self.state().counter,
    {
        self.sema.peek().peek().count()
    }

    /// The number of threads that wait.
    pub fn waiters(&self) -> (n: usize)
        ensures
            n == self.state().waiting.len(),
    {
        self.sema.peek().peek().waiters()
    }

    /// The running thread of `cpu` takes a unit, or waits for one.
    ///
    /// Where a unit is free the thread takes it and goes on.  Otherwise it
    /// joins the waiters at the back, blocked, and gives up the core; it
    /// runs again when a unit has been handed to it.
    pub fn acquire<F>(&mut self, sched: &mut Sched<F>, cpu: &mut CPU<F>, cpsr: &mut u32)
        requires
            old(self).wf(),
            old(sched).wf(),
            old(cpu).wf(),
            old(cpu).running() is Some,
            old(self).state().must_wait() ==> old(cpu).running().unwrap().priority != 0 && old(sched).view_with(old(cpu)).with_running(
                old(cpu).running().unwrap().unscheduled(),
            ).can_take_next(
                old(cpu).core_id(),
                old(sched).now(),
                Some(old(cpu).running().unwrap().unscheduled()),
            ),
        ensures
            final(self).wf(),
            final(sched).wf(),
            final(cpu).wf(),
            final(self).state() == old(self).state().acquire(old(cpu).running().unwrap().id),
            !old(self).state().must_wait() ==> final(sched).view_with(final(cpu)) == old(sched).view_with(old(cpu)),
            old(self).state().must_wait() ==> final(sched).view_with(final(cpu)) == old(sched).view_with(old(cpu)).with_running(
                old(cpu).running().unwrap().unscheduled(),
            ).yield_step(old(cpu).core_id(), old(sched).now()),
            final(sched).dying() == old(sched).dying(),
            final(sched).next_id() == old(sched).next_id(),
            final(sched).now() == old(sched).now(),
            final(sched).leaving() == old(sched).leaving(),
            final(cpu).core_id() == old(cpu).core_id(),
            final(cpu).resched() == old(cpu).resched(),
            *final(cpsr) == after_section(*old(cpsr)),
    {
        match self.begin_acquire(sched, cpu, cpsr) {
            None => {},
            Some(sw) => {
                proof {
                    lemma_enter_then_settle(old(sched).leaving(), sw.previous.unwrap());
                }
                let (old, current) = switch_context(sw.previous, sw.next);
                sched.finish_switch(cpu, old, current);
            },
        }
    }

    /// The first half of [`Semaphore::acquire`], up to the change of stacks,
    /// in one piece under the semaphore's lock.  Where a unit is free the
    /// thread takes it, and there is nothing to switch.  Otherwise the
    /// thread joins the waiters at the back, blocked, and the core takes its
    /// next thread, as in [`Sched::begin_yield`]; the two threads to switch
    /// are handed out.
    pub fn begin_acquire<F>(&mut self, sched: &mut Sched<F>, cpu: &mut CPU<F>, cpsr: &mut u32) -> (r:
        Option<Switch<F>>)
        requires
            old(self).wf(),
            old(sched).wf(),
            old(cpu).wf(),
            old(cpu).running() is Some,
            old(self).state().must_wait() ==> old(cpu).running().unwrap().priority != 0 && old(sched).view_with(old(cpu)).with_running(
                old(cpu).running().unwrap().unscheduled(),
            ).can_take_next(
                old(cpu).core_id(),
                old(sched).now(),
                Some(old(cpu).running().unwrap().unscheduled()),
            ),
        ensures
            final(self).wf(),
            final(sched).wf(),
            final(cpu).wf(),
            final(self).state() == old(self).state().acquire(old(cpu).running().unwrap().id),
            !old(self).state().must_wait() ==> r is None && final(sched).view_with(final(cpu))
                == old(sched).view_with(old(cpu)),
            old(self).state().must_wait() ==> ({
                let v = old(sched).view_with(old(cpu)).with_running(
                    old(cpu).running().unwrap().unscheduled(),
                );
                let next = v.take_next(old(cpu).core_id(), old(sched).now(), v.running);
                r == Some(Switch { previous: v.running, next: next.running.unwrap() }) && final(sched).view_with(final(cpu)) == (CoreView { running: None, ..next })
            }),
            r matches Some(sw) ==> sw.next.run_state is Ready && Sched::can_finish(
                final(cpu),
                sw.previous,
                sw.next,
            ),
            final(sched).dying() == old(sched).dying(),
            final(sched).next_id() == old(sched).next_id(),
            final(sched).now() == old(sched).now(),
            !old(self).state().must_wait() ==> final(sched).leaving() == old(sched).leaving(),
            old(self).state().must_wait() ==> final(sched).leaving() == old(sched).leaving().push(
                Leaving { id: old(cpu).running().unwrap().id, woken: false },
            ),
            final(cpu).core_id() == old(cpu).core_id(),
            final(cpu).resched() == old(cpu).resched(),
            *final(cpsr) == after_section(*old(cpsr)),
    {
        let mut locked = self.sema.lock(cpu.id()).unwrap();
        let mut section = locked.deref_mut().no_interrupts(cpsr);
        let r = section.deref_mut().begin_acquire(sched, cpu);
        section.release(cpsr);
        locked.unlock();
        r
    }

    /// A unit is given back: to the thread that has waited longest, which is
    /// woken, or to the count where nobody waits.
    pub fn release<F>(&mut self, sched: &mut Sched<F>, curcpu: usize, cpsr: &mut u32)
        requires
            old(self).wf(),
            old(sched).wf(),
            old(self).state().counter < usize::MAX,
        ensures
            final(self).wf(),
            final(sched).wf(),
            final(self).state() == old(self).state().release(),
            final(sched).pool() == woken_pool(old(sched).pool(), old(self).state().next_waiter()),
            final(sched).dying() == old(sched).dying(),
            final(sched).next_id() == old(sched).next_id(),
            final(sched).now() == old(sched).now(),
            final(sched).leaving() == woken_leaving(
                old(sched).leaving(),
                old(sched).pool(),
                old(self).state().next_waiter(),
            ),
            *final(cpsr) == after_section(*old(cpsr)),
    {
        let mut locked = self.sema.lock(curcpu).unwrap();
        let mut section = locked.deref_mut().no_interrupts(cpsr);
        section.deref_mut().release(sched, curcpu);
        section.release(cpsr);
        locked.unlock();
    }

    /// [`Semaphore::acquire`], with a guard to give the unit back by.
    pub fn access<F>(&mut self, sched: &mut Sched<F>, cpu: &mut CPU<F>, cpsr: &mut u32) -> (g:
        SemaphoreGuard)
        requires
            old(self).wf(),
            old(sched).wf(),
            old(cpu).wf(),
            old(cpu).running() is Some,
            old(self).state().must_wait() ==> old(cpu).running().unwrap().priority != 0 && old(sched).view_with(old(cpu)).with_running(
                old(cpu).running().unwrap().unscheduled(),
            ).can_take_next(
                old(cpu).core_id(),
                old(sched).now(),
                Some(old(cpu).running().unwrap().unscheduled()),
            ),
        ensures
            final(self).wf(),
            final(sched).wf(),
            final(cpu).wf(),
            final(self).state() == old(self).state().acquire(old(cpu).running().unwrap().id),
            !old(self).state().must_wait() ==> final(sched).view_with(final(cpu)) == old(sched).view_with(old(cpu)),
            old(self).state().must_wait() ==> final(sched).view_with(final(cpu)) == old(sched).view_with(old(cpu)).with_running(
                old(cpu).running().unwrap().unscheduled(),
            ).yield_step(old(cpu).core_id(), old(sched).now()),
            final(sched).dying() == old(sched).dying(),
            final(sched).next_id() == old(sched).next_id(),
            final(sched).now() == old(sched).now(),
            final(sched).leaving() == old(sched).leaving(),
            final(cpu).core_id() == old(cpu).core_id(),
            final(cpu).resched() == old(cpu).resched(),
            *final(cpsr) == after_section(*old(cpsr)),
    {
        self.acquire(sched, cpu, cpsr);
        SemaphoreGuard { held: true }
    }
}

impl SemaphoreGuard {
    /// Gives the unit back to `sem`.
    pub fn release<F>(self, sem: &mut Semaphore, sched: &mut Sched<F>, curcpu: usize, cpsr: &mut u32)
        requires
            old(sem).wf(),
            old(sched).wf(),
            old(sem).state().counter < usize::MAX,
        ensures
            final(sem).wf(),
            final(sched).wf(),
            final(sem).state() == old(sem).state().release(),
            final(sched).pool() == woken_pool(old(sched).pool(), old(sem).state().next_waiter()),
            final(sched).dying() == old(sched).dying(),
            final(sched).next_id() == old(sched).next_id(),
            final(sched).now() == old(sched).now(),
            final(sched).leaving() == woken_leaving(
                old(sched).leaving(),
                old(sched).pool(),
                old(sem).state().next_waiter(),
            ),
            *final(cpsr) == after_section(*old(cpsr)),
    {
        sem.release(sched, curcpu, cpsr);
    }
}

pub struct SemaphoreImpl {
    waiting: VecDeque<ThreadId>,
    counter: usize,
}

impl SemaphoreImpl {
    pub closed spec fn state(&self) -> SemState {
        SemState { counter: self.counter as nat, waiting: self.waiting@ }
    }

    pub fn new(count: usize) -> (s: SemaphoreImpl)
        ensures
            s.state() == SemState::new(count as nat),
    {
        SemaphoreImpl { waiting: VecDeque::new(), counter: count }
    }

    /// The free units.
    pub fn count(&self) -> (n: usize)
        ensures
            n == self.state().counter,
    {
        self.counter
    }

    /// The number of threads that wait.
    pub fn waiters(&self) -> (n: usize)
        ensures
            n == self.state().waiting.len(),
    {
        self.waiting.len()
    }

    /// The running thread of `cpu` asks for a unit.  Where one is free it
    /// is taken.  Otherwise the thread joins the waiters at the back and is
    /// taken out of the running for a core; `true` tells the caller that the
    /// thread has to give up the core now.
    pub fn acquire<F>(&mut self, sched: &mut Sched<F>, cpu: &mut CPU<F>) -> (must_wait: bool)
        requires
            old(cpu).wf(),
            old(cpu).running() is Some,
            old(self).state().must_wait() ==> old(cpu).running().unwrap().priority != 0,
        ensures
            must_wait == old(self).state().must_wait(),
            final(self).state() == old(self).state().acquire(old(cpu).running().unwrap().id),
            *final(sched) == *old(sched),
            final(cpu).wf(),
            final(cpu).running() == Some(
                if must_wait {
                    old(cpu).running().unwrap().unscheduled()
                } else {
                    old(cpu).running().unwrap()
                },
            ),
            final(cpu).idle() == old(cpu).idle(),
            final(cpu).core_id() == old(cpu).core_id(),
            final(cpu).resched() == old(cpu).resched(),
    {
        if self.counter > 0 {
            self.counter = self.counter - 1;
            return false;
        }
        sched.unschedule_no_intr(cpu);
        let cur_th = sched.get_current_thread(cpu);
        self.waiting.push_back(cur_th);
        true
    }

    /// The first half of taking a unit, up to the change of stacks.  Where a
    /// unit is free it is taken, and there is nothing to switch.  Otherwise
    /// the running thread of `cpu` joins the waiters at the back, blocked,
    /// and the core takes its next thread in the same step; the two threads
    /// to switch are handed out.
    pub fn begin_acquire<F>(&mut self, sched: &mut Sched<F>, cpu: &mut CPU<F>) -> (r: Option<
        Switch<F>,
    >)
        requires
            old(sched).wf(),
            old(cpu).wf(),
            old(cpu).running() is Some,
            old(self).state().must_wait() ==> old(cpu).running().unwrap().priority != 0 && old(sched).view_with(old(cpu)).with_running(
                old(cpu).running().unwrap().unscheduled(),
            ).can_take_next(
                old(cpu).core_id(),
                old(sched).now(),
                Some(old(cpu).running().unwrap().unscheduled()),
            ),
        ensures
            final(sched).wf(),
            final(cpu).wf(),
            final(self).state() == old(self).state().acquire(old(cpu).running().unwrap().id),
            !old(self).state().must_wait() ==> r is None && final(sched).view_with(final(cpu))
                == old(sched).view_with(old(cpu)),
            old(self).state().must_wait() ==> ({
                let v = old(sched).view_with(old(cpu)).with_running(
                    old(cpu).running().unwrap().unscheduled(),
                );
                let next = v.take_next(old(cpu).core_id(), old(sched).now(), v.running);
                r == Some(Switch { previous: v.running, next: next.running.unwrap() }) && final(sched).view_with(final(cpu)) == (CoreView { running: None, ..next })
            }),
            r matches Some(sw) ==> sw.next.run_state is Ready && Sched::can_finish(
                final(cpu),
                sw.previous,
                sw.next,
            ),
            final(sched).dying() == old(sched).dying(),
            final(sched).next_id() == old(sched).next_id(),
            final(sched).now() == old(sched).now(),
            !old(self).state().must_wait() ==> final(sched).leaving() == old(sched).leaving(),
            old(self).state().must_wait() ==> final(sched).leaving() == old(sched).leaving().push(
                Leaving { id: old(cpu).running().unwrap().id, woken: false },
            ),
            final(cpu).core_id() == old(cpu).core_id(),
            final(cpu).resched() == old(cpu).resched(),
    {
        if self.acquire(sched, cpu) {
            sched.begin_yield(cpu)
        } else {
            None
        }
    }

    /// A unit is given back.  Where threads wait, the one at the front
    /// leaves the waiters and is woken; otherwise the unit is counted.
    pub fn release<F>(&mut self, sched: &mut Sched<F>, curcpu: usize)
        requires
            old(sched).wf(),
            old(self).state().counter < usize::MAX,
        ensures
            final(self).state() == old(self).state().release(),
            final(sched).wf(),
            final(sched).pool() == woken_pool(old(sched).pool(), old(self).state().next_waiter()),
            final(sched).dying() == old(sched).dying(),
            final(sched).next_id() == old(sched).next_id(),
            final(sched).now() == old(sched).now(),
            final(sched).leaving() == woken_leaving(
                old(sched).leaving(),
                old(sched).pool(),
                old(self).state().next_waiter(),
            ),
    {
        if self.waiting.len() == 0 {
            self.counter = self.counter + 1;
        } else {
            let thread = self.waiting.pop_front().unwrap();
            proof {
                lemma_woken_pool(sched.pool(), thread);
                assert(self.waiting@ =~= old(self).waiting@.drop_first());
            }
            sched.wakeup_no_intr(curcpu, thread);
        }
    }
}

/// The threads between two cores after the thread called `tid` has been
/// woken: where the pool has no thread of that name, those of that name are
/// marked.
pub open spec fn woken_leaving<F>(list: Seq<Leaving>, pool: Seq<Thread<F>>, tid: Option<ThreadId>) -> Seq<
    Leaving,
> {
    if tid is Some && has_no_thread(pool, tid.unwrap()) {
        noted(list, tid.unwrap())
    } else {
        list
    }
}

/// The pool after the thread called `tid` has been woken: the first thread
/// of that name is ready, and the rest is as it was.
pub open spec fn woken_pool<F>(pool: Seq<Thread<F>>, tid: Option<ThreadId>) -> Seq<Thread<F>> {
    if tid is Some && !has_no_thread(pool, tid.unwrap()) {
        let i = choose|i: int| is_first_with_id(pool, tid.unwrap(), i);
        pool.update(i, readied(pool[i]))
    } else {
        pool
    }
}

/// A pool that has a thread called `tid` has a first one.
pub proof fn lemma_woken_pool<F>(pool: Seq<Thread<F>>, tid: ThreadId)
    ensures
        !has_no_thread(pool, tid) ==> is_first_with_id(
            pool,
            tid,
            choose|i: int| is_first_with_id(pool, tid, i),
        ),
{
    if !has_no_thread(pool, tid) {
        let j = choose|j: int| 0 <= j < pool.len() && (#[trigger] pool[j]).id == tid;
        lemma_first_with_id(pool, tid, j);
    }
}

proof fn lemma_first_with_id<F>(pool: Seq<Thread<F>>, tid: ThreadId, j: int)
    requires
        0 <= j < pool.len(),
        pool[j].id == tid,
    ensures
        exists|i: int| is_first_with_id(pool, tid, i),
    decreases j,
{
    if exists|k: int| 0 <= k < j && (#[trigger] pool[k]).id == tid {
        let k = choose|k: int| 0 <= k < j && (#[trigger] pool[k]).id == tid;
        lemma_first_with_id(pool, tid, k);
    } else {
        assert(is_first_with_id(pool, tid, j));
    }
}

} // verus!
