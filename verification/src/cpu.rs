//! What a core owns: the thread it is running, its fallback thread, and the
//! flag by which a timer tick asks for a reschedule.

use vstd::prelude::*;
use crate::thread::{RunState, Thread};

verus! {

/// A message from one core to another.
#[allow(non_camel_case_types)]
#[derive(Clone, Copy, PartialEq, Eq, Structural, Debug)]
pub enum IPI {
    MEM_CHANGED,
    SCHED_CHANGED,
}

pub struct CPU<F> {
    running_thread: Option<Thread<F>>,
    idle_thread: Option<Thread<F>>,
    id: usize,
    should_resched: bool,
}

impl<F> CPU<F> {
    /// The thread that the core is running; `None` only while the core is
    /// between two threads.
    pub closed spec fn running(&self) -> Option<Thread<F>> {
        self.running_thread
    }

    /// The core's fallback thread while it is not the one running.
    pub closed spec fn idle(&self) -> Option<Thread<F>> {
        self.idle_thread
    }

    /// The core's number.
    pub closed spec fn core_id(&self) -> usize {
        self.id
    }

    /// Whether a tick has asked for a reschedule that has not happened yet.
    pub closed spec fn resched(&self) -> bool {
        self.should_resched
    }

    /// A thread of priority zero is the fallback of this core and of no
    /// other, it is always ready, and it is in one place only.
    pub open spec fn wf(&self) -> bool {
        &&& self.idle() matches Some(t) ==> t.is_idle_of(self.core_id()) && t.run_state is Ready
        &&& self.running() matches Some(r) ==> self.may_run(r)
    }

    /// Whether `t` may become the running thread: anything of priority one or
    /// more; of priority zero only this core's fallback, ready, with its
    /// resting place empty.
    pub open spec fn may_run(&self, t: Thread<F>) -> bool {
        t.priority == 0 ==> t.is_idle_of(self.core_id()) && t.run_state is Ready && self.idle() is None
    }

    pub fn new(id: usize) -> (c: Self)
        ensures
            c.core_id() == id,
            c.running() is None,
            c.idle() is None,
            !c.resched(),
            c.wf(),
    {
        CPU { running_thread: None, idle_thread: None, id, should_resched: false }
    }

    pub fn id(&self) -> (id: usize)
        ensures
            id == self.core_id(),
    {
        self.id
    }

    pub fn get_id(&self) -> (id: usize)
        ensures
            id == self.core_id(),
    {
        self.id
    }

    /// The ids of the cores other than this one among `count` cores, in
    /// rising order: the cores that a message to the others goes to.
    pub fn send_ipi_to_others(&self, count: usize) -> (targets: Vec<usize>)
        ensures
            forall|i: int| 0 <= i < targets@.len() ==> targets@[i] < count && targets@[i] != self.core_id(),
            forall|c: usize| c < count && c != self.core_id() ==> targets@.contains(c),
            forall|i: int, j: int| 0 <= i < j < targets@.len() ==> targets@[i] < targets@[j],
    {
        let mut targets: Vec<usize> = Vec::new();
        let mut c: usize = 0;
        while c < count
            invariant
                c <= count,
                forall|i: int| 0 <= i < targets@.len() ==> targets@[i] < c && targets@[i] != self.core_id(),
                forall|d: usize| d < c && d != self.core_id() ==> targets@.contains(d),
                forall|i: int, j: int| 0 <= i < j < targets@.len() ==> targets@[i] < targets@[j],
            decreases count - c,
        {
            if c != self.id {
                let ghost before = targets@;
                targets.push(c);
                assert(targets@[before.len() as int] == c);
                assert forall|d: usize| d < c + 1 && d != self.core_id() implies targets@.contains(d) by {
                    if d < c {
                        assert(before.contains(d));
                        let k = choose|k: int| 0 <= k < before.len() && before[k] == d;
                        assert(targets@[k] == d);
                    }
                }
            }
            c = c + 1;
        }
        targets
    }

    /// [`CPU::may_run`], for a caller that has to find out.
    pub fn can_run(&self, t: &Thread<F>) -> (b: bool)
        ensures
            b == self.may_run(*t),
    {
        if t.priority != 0 {
            return true;
        }
        let bound = match t.cpu_affinity {
            Some(c) => c == self.id,
            None => false,
        };
        bound && t.is_ready() && self.idle_thread.is_none()
    }

    /// Takes the running thread off the core.
    pub fn take_running_thread(&mut self) -> (t: Thread<F>)
        requires
            old(self).running() is Some,
        ensures
            Some(t) == old(self).running(),
            final(self).running() is None,
            final(self).idle() == old(self).idle(),
            final(self).core_id() == old(self).core_id(),
            final(self).resched() == old(self).resched(),
    {
        self.running_thread.take().unwrap()
    }

    /// Makes `t` the running thread.
    pub fn set_running_thread(&mut self, t: Thread<F>)
        ensures
            final(self).running() == Some(t),
            final(self).idle() == old(self).idle(),
            final(self).core_id() == old(self).core_id(),
            final(self).resched() == old(self).resched(),
    {
        self.running_thread = Some(t);
    }

    pub fn get_running_thread(&self) -> (t: &Option<Thread<F>>)
        ensures
            *t == self.running(),
    {
        &self.running_thread
    }

    /// Changes the run state of the running thread.
    pub fn set_run_state(&mut self, state: RunState)
        requires
            old(self).running() is Some,
        ensures
            final(self).running() == Some(
                Thread { run_state: state, ..old(self).running().unwrap() },
            ),
            final(self).idle() == old(self).idle(),
            final(self).core_id() == old(self).core_id(),
            final(self).resched() == old(self).resched(),
    {
        let mut t = self.running_thread.take().unwrap();
        t.run_state = state;
        self.running_thread = Some(t);
    }

    /// Whether the fallback thread is at its resting place.
    pub fn has_idle_thread(&self) -> (b: bool)
        ensures
            b == (self.idle() is Some),
    {
        self.idle_thread.is_some()
    }

    /// Takes the fallback thread from its resting place, if it is there.
    pub fn take_idle_thread(&mut self) -> (t: Option<Thread<F>>)
        ensures
            t == old(self).idle(),
            final(self).idle() is None,
            final(self).running() == old(self).running(),
            final(self).core_id() == old(self).core_id(),
            final(self).resched() == old(self).resched(),
    {
        self.idle_thread.take()
    }

    /// Puts the fallback thread to rest.
    pub fn set_idle_thread(&mut self, t: Thread<F>)
        ensures
            final(self).idle() == Some(t),
            final(self).running() == old(self).running(),
            final(self).core_id() == old(self).core_id(),
            final(self).resched() == old(self).resched(),
    {
        self.idle_thread = Some(t);
    }

    pub fn should_resched(&self) -> (b: bool)
        ensures
            b == self.resched(),
    {
        self.should_resched
    }

    pub fn set_should_resched(&mut self, b: bool)
        ensures
            final(self).resched() == b,
            final(self).running() == old(self).running(),
            final(self).idle() == old(self).idle(),
            final(self).core_id() == old(self).core_id(),
    {
        self.should_resched = b;
    }
}

} // verus!
