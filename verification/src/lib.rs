//! The concurrency substrate of a small ARM kernel, as a set of sequential
//! state machines: the thread model, the scheduler, the per-core state, the
//! CPU-recursive lock, the interrupt guard, the counting semaphore and the
//! interrupt dispatcher.
//!
//! Nothing in this crate touches hardware.  Every operation takes the state it
//! works on as an argument and says in its contract what the state is
//! afterwards; the code that owns the registers, the stacks and the context
//! switch calls in here to decide and does the rest itself.

pub mod arch;
pub mod cpu;
pub mod device;
pub mod drivers;
pub mod io;
pub mod mem;
pub mod platform;
pub mod sched;
pub mod sync;
pub mod thread;
