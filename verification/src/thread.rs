//! The schedulable unit.

use vstd::prelude::*;
use crate::arch::arm::thread::Context;
use crate::mem::VirtualAddress;
use crate::platform::ThreadId;

verus! {

/// Pages in a thread's stack.
pub const STACK_PAGES: usize = 4;

/// Bytes in a thread's stack.
pub const STACK_SIZE: usize = 0x4000;

/// Where the first thread stack starts.
pub const STACK_BASE: usize = 0x100_0000;

#[derive(Copy, Clone, PartialEq, Eq, Structural, Debug)]
pub enum RunState {
    /// May be given a core.
    Ready,
    /// Asleep until the clock reaches the deadline.
    WakeOn(usize),
    /// Waiting to be woken by name.
    Blocked,
}

/// A thread.  `F` is what it runs when it is first given a core.
pub struct Thread<F> {
    pub ctx: Context,
    pub run_state: RunState,
    pub id: ThreadId,
    pub func: Option<F>,
    pub cpu_affinity: Option<usize>,
    pub priority: usize,
}

impl<F> Thread<F> {
    /// The thread may run on `core` as far as its affinity goes.
    pub open spec fn may_run_on(&self, core: usize) -> bool {
        self.cpu_affinity is None || self.cpu_affinity == Some(core)
    }

    /// The thread is the fallback of `core`: priority zero is kept for it.
    pub open spec fn is_idle_of(&self, core: usize) -> bool {
        self.priority == 0 && self.cpu_affinity == Some(core)
    }

    /// The thread taken out of the running for a core: a ready thread is
    /// blocked, any other stays as it is.
    pub open spec fn unscheduled(self) -> Thread<F> {
        if self.run_state is Ready {
            Thread { run_state: RunState::Blocked, ..self }
        } else {
            self
        }
    }

    /// Where the next thread stack lies: the region starts `counter` bytes
    /// above the stack base, and the counter moves past it.  Returns the
    /// start and the end of the region; the end is the initial stack pointer.
    pub fn allocate_stack(counter: &mut usize) -> (r: (VirtualAddress, VirtualAddress))
        requires
            STACK_BASE + *old(counter) + STACK_SIZE <= usize::MAX,
        ensures
            r.0.0 == STACK_BASE + *old(counter),
            r.1.0 == STACK_BASE + *old(counter) + STACK_SIZE,
            *final(counter) == *old(counter) + STACK_SIZE,
    {
        let oldcounter = *counter;
        *counter = oldcounter + STACK_SIZE;
        let stack_start = VirtualAddress(STACK_BASE).uoffset(oldcounter);
        let stack_end = stack_start.uoffset(STACK_SIZE);
        (stack_start, stack_end)
    }

    /// A thread that has never run: ready, of priority one, free to run on
    /// any core, with `f` to run and `ctx` as its prepared context.
    pub fn new(id: ThreadId, f: F, ctx: Context) -> (t: Self)
        ensures
            t == (Thread {
                ctx,
                run_state: RunState::Ready,
                id,
                func: Some(f),
                cpu_affinity: None,
                priority: 1,
            }),
    {
        Thread {
            ctx,
            run_state: RunState::Ready,
            id,
            func: Some(f),
            cpu_affinity: None,
            priority: 1,
        }
    }

    pub fn is_ready(&self) -> (b: bool)
        ensures
            b == (self.run_state is Ready),
    {
        if let RunState::Ready = self.run_state {
            return true;
        }
        false
    }

    /// The thread that is executing the call: it has nothing to run first and
    /// no prepared stack, since it is running already.
    pub fn new_cur_thread(id: ThreadId) -> (t: Self)
        ensures
            t.run_state is Ready,
            t.id == id,
            t.func is None,
            t.cpu_affinity is None,
            t.priority == 1,
            t.ctx.sp() == 0,
    {
        let (ctx, _) = crate::arch::arm::thread::new_thread(VirtualAddress(0), 0);
        Thread {
            ctx,
            run_state: RunState::Ready,
            id,
            func: None,
            cpu_affinity: None,
            priority: 1,
        }
    }
}

} // verus!
