//! What the trap entry saves.

use vstd::prelude::*;

verus! {

/// The registers of an interrupted thread, in the order in which the trap
/// entry stores them.
#[derive(Copy, Clone, Debug)]
pub struct InterruptContext {
    pub sp: u32,
    pub lr: u32,
    pub cpsr: u32,
    pub r0: u32,
    pub r1: u32,
    pub r2: u32,
    pub r3: u32,
    pub r4: u32,
    pub r5: u32,
    pub r6: u32,
    pub r7: u32,
    pub r8: u32,
    pub r9: u32,
    pub r10: u32,
    pub r11: u32,
    pub r12: u32,
    pub pc: u32,
}

/// Bytes in an [`InterruptContext`]: seventeen words.
pub const SIZE_OF_INT_CTX: usize = 68;

} // verus!
