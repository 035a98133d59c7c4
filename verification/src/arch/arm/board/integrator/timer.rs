//! The timers: four registers each, a fixed distance apart.

use vstd::prelude::*;
use crate::mem::VirtualAddress;

verus! {

pub const TIMERS_BASE: usize = 0x1300_0000;

pub const TIMER_BASE_OFFSET: usize = 0x100;

pub const TIMER_LOAD_OFFSET: usize = 0x00;

pub const TIMER_VALUE_OFFSET: usize = 0x04;

pub const TIMER_CNTRL_OFFSET: usize = 0x08;

pub const TIMER_INTCLR_OFFSET: usize = 0x0C;

pub const TIMER_RIS_OFFSET: usize = 0x10;

pub const TIMER_MIS_OFFSET: usize = 0x14;

pub const TIMER_BG_LOAD_OFFSET: usize = 0x18;

pub const TIMER_SIZE_32: u32 = 0x02;

pub const INT_EN: u32 = 0x20;

pub const PERIODIC: u32 = 0x40;

pub const ENABLE: u32 = 0x80;

/// The number of timers.
pub const TIMERS: usize = 3;

/// A word to write to a register of a timer.
#[derive(Copy, Clone, PartialEq, Eq, Structural, Debug)]
pub struct TimerWrite {
    pub addr: VirtualAddress,
    pub value: u32,
}

pub struct Timer {
    base: VirtualAddress,
}

impl Timer {
    /// Where the registers of the timer start.
    pub closed spec fn base(&self) -> usize {
        self.base.0
    }

    pub open spec fn wf(&self) -> bool {
        self.base() + TIMER_BG_LOAD_OFFSET <= usize::MAX
    }

    /// The timer with the number `index`, where the first timer lies at
    /// `timerbase`.
    pub fn new(index: usize, timerbase: VirtualAddress) -> (t: Timer)
        requires
            index < TIMERS,
            timerbase.0 + TIMERS * TIMER_BASE_OFFSET <= usize::MAX,
        ensures
            t.wf(),
            t.base() == timerbase.0 + index * TIMER_BASE_OFFSET,
    {
        Timer { base: timerbase.uoffset(index * TIMER_BASE_OFFSET) }
    }

    /// What starts the timer: the count goes into the load register and
    /// into its background copy, the control word makes the timer run
    /// periodically at its full width, with its interrupt on where `intr`
    /// says so, and a pending interrupt is cleared.
    pub fn start_timer(&self, counter: u32, intr: bool) -> (w: [TimerWrite; 4])
        requires
            self.wf(),
        ensures
            w@[0] == (TimerWrite {
                addr: VirtualAddress((self.base() + TIMER_LOAD_OFFSET) as usize),
                value: counter,
            }),
            w@[1] == (TimerWrite {
                addr: VirtualAddress((self.base() + TIMER_BG_LOAD_OFFSET) as usize),
                value: counter,
            }),
            w@[2] == (TimerWrite {
                addr: VirtualAddress((self.base() + TIMER_CNTRL_OFFSET) as usize),
                value: if intr {
                    0xe2
                } else {
                    0xc2
                },
            }),
            w@[3] == (TimerWrite {
                addr: VirtualAddress((self.base() + TIMER_INTCLR_OFFSET) as usize),
                value: 1,
            }),
    {
        assert((0x80u32 | 0x40 | 0x02) == 0xc2 && (0xc2u32 | 0x20) == 0xe2) by (bit_vector);
        let mut flags = ENABLE | PERIODIC | TIMER_SIZE_32;
        if intr {
            flags = flags | INT_EN;
        }
        [
            TimerWrite { addr: self.base.uoffset(TIMER_LOAD_OFFSET), value: counter },
            TimerWrite { addr: self.base.uoffset(TIMER_BG_LOAD_OFFSET), value: counter },
            TimerWrite { addr: self.base.uoffset(TIMER_CNTRL_OFFSET), value: flags },
            self.clear_interrupt(),
        ]
    }

    /// What clears the interrupt of the timer.
    pub fn clear_interrupt(&self) -> (w: TimerWrite)
        requires
            self.wf(),
        ensures
            w == (TimerWrite {
                addr: VirtualAddress((self.base() + TIMER_INTCLR_OFFSET) as usize),
                value: 1,
            }),
    {
        TimerWrite { addr: self.base.uoffset(TIMER_INTCLR_OFFSET), value: 1 }
    }
}

} // verus!
