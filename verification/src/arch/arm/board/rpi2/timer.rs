//! The timer of a core.

use vstd::prelude::*;

verus! {

pub const TIMER_CONTROL_ENABLE: u32 = 0x1;

pub const TIMER_CONTROL_IMASK: u32 = 0x2;

pub const TIMER_CONTROL_ISTATUS: u32 = 0x4;

/// What to load into the timer of a core.
#[derive(Copy, Clone, PartialEq, Eq, Structural, Debug)]
pub struct TimerWords {
    /// The count-down value.
    pub tval: u32,
    /// The control word.
    pub ctl: u32,
}

pub struct GlobalTimer {
    time: u32,
}

impl GlobalTimer {
    /// The ticks of the counter between two interrupts.
    pub closed spec fn time(&self) -> u32 {
        self.time
    }

    pub fn new(time: u32) -> (t: Self)
        ensures
            t.time() == time,
    {
        GlobalTimer { time }
    }

    /// What starts the timer: the count-down value is the timer's period,
    /// and the control word enables the timer with its interrupt unmasked.
    pub fn start_timer(&self) -> (w: TimerWords)
        ensures
            w == (TimerWords { tval: self.time(), ctl: TIMER_CONTROL_ENABLE }),
    {
        TimerWords { tval: self.time, ctl: TIMER_CONTROL_ENABLE }
    }

    /// What re-arms the timer when it has fired: the count-down value.
    pub fn interrupted(&self) -> (tval: u32)
        ensures
            tval == self.time(),
    {
        self.time
    }
}

} // verus!
