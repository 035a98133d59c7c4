//! What the rest of the kernel is handed at start-up: the scheduler, the
//! per-core state and the identifiers they share.

pub mod intr;

use vstd::prelude::*;
use crate::arch::arm::vector::InterruptContext;
use crate::cpu::CPU;
use crate::arch::arm::thread::switch_context;
use crate::sched::select::{lemma_enter_then_settle, Leaving};
use crate::sched::{CoreView, Sched, Switch, DELTA_MILLIS};

verus! {

/// What the trap entry saves of the interrupted thread.
pub type Context = InterruptContext;

/// Something that takes an interrupt and wants to see what was interrupted.
pub trait InterruptableWithContext {
    fn interrupted_ctx(&self, ctx: &mut Context);
}

/// Something that takes an interrupt.
pub trait Interruptable {
    fn interrupted(&self);
}

impl<T: Interruptable> InterruptableWithContext for T {
    /// Something that takes interrupts takes them with a context too: it
    /// is interrupted as it would be without, and the context is not
    /// touched.
    fn interrupted_ctx(&self, _ctx: &mut Context)
        ensures
            call_ensures(T::interrupted, (self,), ()),
            *final(_ctx) == *old(_ctx),
    {
        self.interrupted()
    }
}

/// The flag that says that the platform services are complete, so that
/// messages between the cores can be handled.
pub struct SystemReady {
    ready: bool,
}

impl SystemReady {
    pub closed spec fn is_ready(&self) -> bool {
        self.ready
    }

    /// The flag before the system is ready.
    pub fn new() -> (f: SystemReady)
        ensures
            !f.is_ready(),
    {
        SystemReady { ready: false }
    }
}

/// Says that the system is ready.  It stays so.
pub fn set_system_ready(flag: &mut SystemReady)
    ensures
        final(flag).is_ready(),
{
    flag.ready = true;
}

pub fn is_system_ready(flag: &SystemReady) -> (b: bool)
    ensures
        b == flag.is_ready(),
{
    flag.ready
}

/// The scheduler and the cores it schedules for.
pub struct PlatformServices<F> {
    pub scheduler: Sched<F>,
    pub cpus: Vec<CPU<F>>,
}

impl<F> PlatformServices<F> {
    /// The scheduler and every core are well formed, and core `i` is at
    /// place `i`.
    pub open spec fn wf(&self) -> bool {
        &&& self.scheduler.wf()
        &&& forall|i: int|
            0 <= i < self.cpus@.len() ==> (#[trigger] self.cpus@[i]).wf() && self.cpus@[i].core_id()
                == i
    }

    /// A scheduler with nothing in it, and `num_cpus` cores that run nothing.
    pub fn new(num_cpus: usize) -> (p: Self)
        ensures
            p.wf(),
            p.cpus@.len() == num_cpus,
            p.scheduler.pool().len() == 0,
            p.scheduler.leaving().len() == 0,
            p.scheduler.now() == 0,
            forall|i: int|
                0 <= i < num_cpus ==> (#[trigger] p.cpus@[i]).running() is None && p.cpus@[i].idle()
                    is None && !p.cpus@[i].resched(),
    {
        let mut cpus: Vec<CPU<F>> = Vec::new();
        let mut i: usize = 0;
        while i < num_cpus
            invariant
                i <= num_cpus,
                cpus@.len() == i,
                forall|j: int|
                    0 <= j < i ==> (#[trigger] cpus@[j]).wf() && cpus@[j].core_id() == j
                        && cpus@[j].running() is None && cpus@[j].idle() is None
                        && !cpus@[j].resched(),
            decreases num_cpus - i,
        {
            cpus.push(CPU::new(i));
            i = i + 1;
        }
        PlatformServices { scheduler: Sched::new(), cpus }
    }

    pub fn get_scheduler(&self) -> (s: &Sched<F>)
        ensures
            *s == self.scheduler,
    {
        &self.scheduler
    }

    /// The state of the core that makes the call, whose number is `id`.
    pub fn get_current_cpu(&self, id: usize) -> (c: &CPU<F>)
        requires
            id < self.cpus@.len(),
        ensures
            *c == self.cpus@[id as int],
    {
        &self.cpus[id]
    }

    /// A timer tick on core `id`.  The first core keeps the time: its ticks
    /// move the clock on.  On every core the tick asks for a reschedule,
    /// which happens when the handler has returned.
    pub fn clock(&mut self, id: usize)
        requires
            id < old(self).cpus@.len(),
            id == 0 ==> old(self).scheduler.now() + DELTA_MILLIS <= usize::MAX,
        ensures
            final(self).scheduler.now() == (if id == 0 {
                old(self).scheduler.now() + DELTA_MILLIS
            } else {
                old(self).scheduler.now() as int
            }),
            final(self).scheduler.pool() == old(self).scheduler.pool(),
            final(self).scheduler.dying() == old(self).scheduler.dying(),
            final(self).scheduler.next_id() == old(self).scheduler.next_id(),
            final(self).scheduler.leaving() == old(self).scheduler.leaving(),
            final(self).cpus@.len() == old(self).cpus@.len(),
            forall|i: int|
                0 <= i < final(self).cpus@.len() && i != id ==> final(self).cpus@[i] == old(self).cpus@[i],
            final(self).cpus@[id as int].resched(),
            final(self).cpus@[id as int].running() == old(self).cpus@[id as int].running(),
            final(self).cpus@[id as int].idle() == old(self).cpus@[id as int].idle(),
            final(self).cpus@[id as int].core_id() == old(self).cpus@[id as int].core_id(),
            old(self).wf() ==> final(self).wf(),
    {
        if id == 0 {
            self.scheduler.clock();
        }
        self.cpus[id].set_should_resched(true);
    }

    /// What core `id` does when an interrupt handler has returned, still
    /// with interrupts off: where a tick has asked for a reschedule, the
    /// request is cleared and the running thread yields.  Reports whether
    /// it did.
    pub fn post_interrupted(&mut self, id: usize) -> (yielded: bool)
        requires
            old(self).wf(),
            id < old(self).cpus@.len(),
            old(self).cpus@[id as int].resched() ==> old(self).cpus@[id as int].running() is Some
                && old(self).scheduler.view_with(&old(self).cpus@[id as int]).can_take_next(
                id,
                old(self).scheduler.now(),
                old(self).cpus@[id as int].running(),
            ),
        ensures
            final(self).wf(),
            yielded == old(self).cpus@[id as int].resched(),
            final(self).cpus@.len() == old(self).cpus@.len(),
            forall|i: int|
                0 <= i < final(self).cpus@.len() && i != id ==> final(self).cpus@[i] == old(self).cpus@[i],
            !final(self).cpus@[id as int].resched(),
            !yielded ==> final(self).scheduler.view_with(&final(self).cpus@[id as int]) == old(self).scheduler.view_with(&old(self).cpus@[id as int]),
            yielded ==> final(self).scheduler.view_with(&final(self).cpus@[id as int]) == old(self).scheduler.view_with(&old(self).cpus@[id as int]).yield_step(
                id,
                old(self).scheduler.now(),
            ),
            final(self).scheduler.now() == old(self).scheduler.now(),
            final(self).scheduler.dying() == old(self).scheduler.dying(),
            final(self).scheduler.next_id() == old(self).scheduler.next_id(),
            final(self).scheduler.leaving() == old(self).scheduler.leaving(),
    {
        let asked = self.cpus[id].should_resched();
        match self.begin_post_interrupted(id) {
            None => {},
            Some(sw) => {
                proof {
                    lemma_enter_then_settle(old(self).scheduler.leaving(), sw.previous.unwrap());
                }
                let (old, current) = switch_context(sw.previous, sw.next);
                self.scheduler.finish_switch(&mut self.cpus[id], old, current);
            },
        }
        asked
    }

    /// The first half of [`PlatformServices::post_interrupted`], up to the
    /// change of stacks.  Where a tick has asked for a reschedule, the
    /// request is cleared and core `id` takes its next thread, as in
    /// [`Sched::begin_yield`]; the two threads to switch are handed out,
    /// unless the thread that runs stays.  Where no tick has asked, nothing
    /// happens.
    pub fn begin_post_interrupted(&mut self, id: usize) -> (r: Option<Switch<F>>)
        requires
            old(self).wf(),
            id < old(self).cpus@.len(),
            old(self).cpus@[id as int].resched() ==> old(self).cpus@[id as int].running() is Some
                && old(self).scheduler.view_with(&old(self).cpus@[id as int]).can_take_next(
                id,
                old(self).scheduler.now(),
                old(self).cpus@[id as int].running(),
            ),
        ensures
            final(self).scheduler.wf(),
            final(self).cpus@.len() == old(self).cpus@.len(),
            forall|i: int|
                0 <= i < final(self).cpus@.len() && i != id ==> final(self).cpus@[i] == old(self).cpus@[i],
            final(self).cpus@[id as int].wf(),
            final(self).cpus@[id as int].core_id() == id,
            !final(self).cpus@[id as int].resched(),
            ({
                let v = old(self).scheduler.view_with(&old(self).cpus@[id as int]);
                let now = old(self).scheduler.now();
                let after = final(self).scheduler.view_with(&final(self).cpus@[id as int]);
                if !old(self).cpus@[id as int].resched() {
                    r is None && after == v
                } else if v.stays(id, now) {
                    r is None && after == v.take_next(id, now, v.running)
                } else {
                    r == Some(
                        Switch {
                            previous: v.running,
                            next: v.take_next(id, now, v.running).running.unwrap(),
                        },
                    ) && after == (CoreView { running: None, ..v.take_next(id, now, v.running) })
                }
            }),
            r matches Some(sw) ==> sw.next.run_state is Ready && Sched::can_finish(
                &final(self).cpus@[id as int],
                sw.previous,
                sw.next,
            ),
            final(self).scheduler.now() == old(self).scheduler.now(),
            final(self).scheduler.dying() == old(self).scheduler.dying(),
            final(self).scheduler.next_id() == old(self).scheduler.next_id(),
            r is None ==> final(self).scheduler.leaving() == old(self).scheduler.leaving(),
            r matches Some(sw) ==> final(self).scheduler.leaving() == old(self).scheduler.leaving().push(Leaving { id: sw.previous.unwrap().id, woken: false }),
    {
        if self.cpus[id].should_resched() {
            self.cpus[id].set_should_resched(false);
            self.scheduler.begin_yield(&mut self.cpus[id])
        } else {
            None
        }
    }
}

/// How often the timer fires in a second.
#[allow(non_upper_case_globals)]
pub const ticks_in_second: usize = 20;

/// The name of a thread: unique, and the same for as long as the thread lives.
#[derive(Copy, Clone, PartialEq, Eq, Structural, Hash, Debug)]
pub struct ThreadId(pub usize);

} // verus!
