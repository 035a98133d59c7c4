//! The saved machine state of a thread that is not running.
//!
//! A switch pushes the callee-saved registers and the return address on the
//! outgoing thread's stack and keeps only the stack pointer; resuming pops
//! them again.  A thread that has never run gets a frame written by hand, so
//! that the first switch to it "returns" into its entry point.

use vstd::prelude::*;
use crate::mem::VirtualAddress;
use crate::thread::Thread;

verus! {

/// The number of words that a switch leaves on the stack: r4 to r12, and r14.
pub const FRAME_WORDS: usize = 10;

#[derive(Copy, Clone, Debug)]
pub struct Context {
    sp: u32,
}

/// One word to be written into a new thread's stack.
#[derive(Copy, Clone, Debug)]
pub struct FrameStore {
    pub addr: VirtualAddress,
    pub value: u32,
}

impl Context {
    pub closed spec fn sp(&self) -> u32 {
        self.sp
    }

    /// The context of a thread that was switched away from with its stack
    /// pointer at `sp`.
    pub fn saved(sp: u32) -> (c: Context)
        ensures
            c.sp() == sp,
    {
        Context { sp }
    }

    pub fn stack_pointer(&self) -> (sp: u32)
        ensures
            sp == self.sp(),
    {
        self.sp
    }
}

/// The `i`-th store of the frame below `stack`: the return address first, at
/// the highest slot, then nine cleared registers going down.
pub open spec fn frame_store(stack: VirtualAddress, entry: u32, i: int) -> FrameStore {
    FrameStore {
        addr: VirtualAddress((stack.0 - 4 * (i + 1)) as usize),
        value: if i == 0 { entry } else { 0 },
    }
}

/// The context of a thread that starts at `entry` on the stack that ends at
/// `stack`, and the words to write there before it is first resumed.  A
/// `stack` of zero stands for the stack that is in use already: nothing is
/// written, and the context is filled in by the first switch away.
pub fn new_thread(stack: VirtualAddress, entry: u32) -> (r: (Context, Vec<FrameStore>))
    requires
        stack.0 == 0 || 40 <= stack.0 <= u32::MAX,
    ensures
        stack.0 == 0 ==> r.0.sp() == 0 && r.1@.len() == 0,
        stack.0 != 0 ==> r.0.sp() == stack.0 - 40 && r.1@.len() == FRAME_WORDS,
        forall|i: int| 0 <= i < r.1@.len() ==> r.1@[i] == frame_store(stack, entry, i),
{
    let mut stores: Vec<FrameStore> = Vec::new();
    if stack.0 == 0 {
        return (Context { sp: 0 }, stores);
    }
    let mut i: usize = 0;
    while i < FRAME_WORDS
        invariant
            i <= FRAME_WORDS,
            40 <= stack.0 <= u32::MAX,
            stores@.len() == i,
            forall|j: int| 0 <= j < i ==> stores@[j] == frame_store(stack, entry, j),
        decreases FRAME_WORDS - i,
    {
        let value: u32 = if i == 0 { entry } else { 0 };
        stores.push(FrameStore { addr: VirtualAddress(stack.0 - 4 * (i + 1)), value });
        i = i + 1;
    }
    (Context { sp: (stack.0 - 40) as u32 }, stores)
}

/// The hand-over between two threads, as the resumed side sees it: it gets
/// back the thread that was left, to put it away, and itself, to install as
/// the running thread.  Nothing else changes hands.
pub fn switch_context<F>(current_thread: Option<Thread<F>>, new_thread: Thread<F>) -> (r: (
    Option<Thread<F>>,
    Thread<F>,
))
    ensures
        r.0 == current_thread,
        r.1 == new_thread,
{
    (current_thread, new_thread)
}

} // verus!
