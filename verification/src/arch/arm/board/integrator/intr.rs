//! The interrupt controller: one bit for every line in each of its words.

use vstd::prelude::*;

verus! {

pub const PIC_BASE_PADDR: usize = 0x1400_0000;

pub const PIC_IRQ_STATUS_OFFSET: usize = 0x00;

pub const PIC_IRQ_RAWSTAT_OFFSET: usize = 0x04;

pub const PIC_IRQ_ENABLESET_OFFSET: usize = 0x08;

pub const PIC_IRQ_ENABLECLR_OFFSET: usize = 0x0C;

pub const PIC_INT_SOFTSET_OFFSET: usize = 0x10;

pub const PIC_INT_SOFTCLR_OFFSET: usize = 0x14;

pub const PIC_FIQ_STATUS_OFFSET: usize = 0x20;

pub const PIC_FIQ_RAWSTAT_OFFSET: usize = 0x24;

pub const PIC_FIQ_ENABLESET_OFFSET: usize = 0x28;

pub const PIC_FIQ_ENABLECLR_OFFSET: usize = 0x2C;

/// The number of lines of the controller.
pub const LINES: usize = 29;

#[allow(non_camel_case_types)]
#[derive(Copy, Clone, PartialEq, Eq, Structural, Debug)]
pub enum Interrupts {
    SOFTINT,
    UARTINT0,
    UARTINT1,
    KBDINT,
    MOUSEINT,
    TIMERINT0,
    TIMERINT1,
    TIMERINT2,
    RTCINT,
    LM_LLINT0,
    LM_LLINT1,
    CLCDCINT,
    MMCIINT0,
    MMCIINT1,
    AACIINT,
    CPPLDINT,
    ETH_INT,
    TS_PENINT,
}

impl Interrupts {
    /// The line of the interrupt: the first eleven from zero, the rest from
    /// twenty-two.
    pub open spec fn spec_number(self) -> usize {
        match self {
            Interrupts::SOFTINT => 0,
            Interrupts::UARTINT0 => 1,
            Interrupts::UARTINT1 => 2,
            Interrupts::KBDINT => 3,
            Interrupts::MOUSEINT => 4,
            Interrupts::TIMERINT0 => 5,
            Interrupts::TIMERINT1 => 6,
            Interrupts::TIMERINT2 => 7,
            Interrupts::RTCINT => 8,
            Interrupts::LM_LLINT0 => 9,
            Interrupts::LM_LLINT1 => 10,
            Interrupts::CLCDCINT => 22,
            Interrupts::MMCIINT0 => 23,
            Interrupts::MMCIINT1 => 24,
            Interrupts::AACIINT => 25,
            Interrupts::CPPLDINT => 26,
            Interrupts::ETH_INT => 27,
            Interrupts::TS_PENINT => 28,
        }
    }

    pub fn number(self) -> (n: usize)
        ensures
            n == self.spec_number(),
            n < LINES,
    {
        match self {
            Interrupts::SOFTINT => 0,
            Interrupts::UARTINT0 => 1,
            Interrupts::UARTINT1 => 2,
            Interrupts::KBDINT => 3,
            Interrupts::MOUSEINT => 4,
            Interrupts::TIMERINT0 => 5,
            Interrupts::TIMERINT1 => 6,
            Interrupts::TIMERINT2 => 7,
            Interrupts::RTCINT => 8,
            Interrupts::LM_LLINT0 => 9,
            Interrupts::LM_LLINT1 => 10,
            Interrupts::CLCDCINT => 22,
            Interrupts::MMCIINT0 => 23,
            Interrupts::MMCIINT1 => 24,
            Interrupts::AACIINT => 25,
            Interrupts::CPPLDINT => 26,
            Interrupts::ETH_INT => 27,
            Interrupts::TS_PENINT => 28,
        }
    }
}

/// Whether a line is wired to a device.
pub open spec fn spec_is_wired(line: usize) -> bool {
    line <= 10 || 22 <= line <= 28
}

pub fn is_wired(line: usize) -> (b: bool)
    ensures
        b == spec_is_wired(line),
{
    line <= 10 || (22 <= line && line <= 28)
}

} // verus!
