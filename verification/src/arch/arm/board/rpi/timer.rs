//! The system timer: a free-running counter and four compare registers, of
//! which the processor may use two.

use vstd::prelude::*;
use crate::platform::ticks_in_second;

verus! {

pub const TIMER_HZ: u32 = 1_000_000;

/// Counts of the timer in a tick.
pub const DELTA_COUNTER: u32 = 50_000;

#[derive(Copy, Clone, PartialEq, Eq, Structural, Debug)]
pub enum Matches {
    Match1,
    Match3,
}

impl Matches {
    /// The compare register.
    pub open spec fn spec_number(self) -> usize {
        match self {
            Matches::Match1 => 1,
            Matches::Match3 => 3,
        }
    }

    pub fn number(self) -> (n: usize)
        ensures
            n == self.spec_number(),
    {
        match self {
            Matches::Match1 => 1,
            Matches::Match3 => 3,
        }
    }
}

/// The bit of the control word that stands for the compare register `m`.
#[allow(non_snake_case)]
pub fn matchToFlag(m: Matches) -> (flag: u32)
    ensures
        flag == (if m == Matches::Match1 {
            2u32
        } else {
            8u32
        }),
{
    match m {
        Matches::Match1 => 0x2,
        Matches::Match3 => 0x8,
    }
}

/// The compare value that fires `v` counts after the counter reads `now`;
/// the counter goes round at the end of the word.
pub fn add_to_match(now: u32, v: u32) -> (r: u32)
    ensures
        r == (now + v) % 0x1_0000_0000,
{
    now.wrapping_add(v)
}

/// The counts in a tick make up a second.
pub proof fn law_ticks_make_a_second()
    ensures
        DELTA_COUNTER * ticks_in_second == TIMER_HZ,
{
}

} // verus!
