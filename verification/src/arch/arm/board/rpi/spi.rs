//! The serial peripheral interface: the words that set it up and start a
//! transfer, and the steps of a transfer that is driven by interrupts.

use vstd::prelude::*;
use crate::device::spi::{ClockPhase, ClockPolarity, Hz, Transfer};

verus! {

pub const RXR: u32 = 0x8_0000;

pub const TXD: u32 = 0x4_0000;

pub const RXD: u32 = 0x2_0000;

pub const DONE: u32 = 0x1_0000;

pub const INTR: u32 = 0x400;

pub const INTD: u32 = 0x200;

pub const TA: u32 = 0x80;

pub const CLEAR_RX: u32 = 0x20;

pub const CLEAR_TX: u32 = 0x10;

pub const CPOL: u32 = 0x8;

pub const CPHA: u32 = 0x4;

pub const CS2: u32 = 0x2;

pub const CS1: u32 = 0x1;

/// The clock that the divider divides.
pub const APB_CLOCK: u32 = 250_000_000;

/// The words that set the interface up.
#[derive(Copy, Clone, PartialEq, Eq, Structural, Debug)]
pub struct SetupWords {
    pub control_status: u32,
    pub clock_div: u32,
}

/// The words for a clock of the given polarity, phase and speed.  Both
/// interrupts are on.  The divider is the even number at or below the ratio
/// of the two clocks, of which the device takes the low sixteen bits.
pub fn confiure(clock_pol: ClockPolarity, clock_phase: ClockPhase, speed: Hz) -> (w: SetupWords)
    requires
        speed.0 != 0,
    ensures
        w.control_status == 0x600 + (if clock_pol == ClockPolarity::ResetIsHigh {
            8int
        } else {
            0int
        }) + (if clock_phase == ClockPhase::Begin {
            4int
        } else {
            0int
        }),
        w.clock_div == ((APB_CLOCK / speed.0) / 2 * 2) % 0x1_0000,
{
    let pol: u32 = match clock_pol {
        ClockPolarity::ResetIsLow => 0,
        ClockPolarity::ResetIsHigh => CPOL,
    };
    let phase: u32 = match clock_phase {
        ClockPhase::Middle => 0,
        ClockPhase::Begin => CPHA,
    };
    assert((0x200u32 | 0x400) == 0x600 && (0x600u32 | 0) == 0x600 && (0x600u32 | 8) == 0x608 && (
    0x600u32 | 4) == 0x604 && (0x608u32 | 4) == 0x60c && (0x608u32 | 0) == 0x608)
        by (bit_vector);
    let cs = ((INTD | INTR) | pol) | phase;
    let ratio = APB_CLOCK / speed.0;
    assert(((ratio >> 1) << 1) & 0xffff == (ratio / 2 * 2) % 0x1_0000) by (bit_vector);
    let divider = ((ratio >> 1) << 1) & 0xffff;
    SetupWords { control_status: cs, clock_div: divider }
}

/// The control word that starts a transfer with `slave`: the slave is
/// selected, both pipes are cleared, and the transfer is active.  There are
/// three slaves.
pub fn start_transfer(control_status: u32, slave: usize) -> (r: Result<u32, ()>)
    ensures
        slave > 2 ==> r is Err,
        slave <= 2 ==> r == Ok::<u32, ()>((control_status & !3u32) | (slave as u32) | 0xb0),
{
    if slave > 2 {
        return Err(());
    }
    let select = slave as u32;
    assert(((control_status & !1u32) & !2u32) | ((select | 0x80) | 0x10 | 0x20) == (control_status
        & !3u32) | select | 0xb0) by (bit_vector);
    let cs_updates = ((select | TA) | CLEAR_TX) | CLEAR_RX;
    Ok(((control_status & !CS1) & !CS2) | cs_updates)
}

/// A transfer that is under way.
pub struct TransferState<C> {
    pub transfer: Transfer<C>,
    pub bytes_read: usize,
    pub bytes_written: usize,
}

/// What the driver does when the device interrupts.
#[derive(Copy, Clone, PartialEq, Eq, Structural, Debug)]
pub enum Step {
    /// Write what is left to write, as far as the device takes it.
    Write,
    /// Write, then read what has come in and write again.
    WriteThenExchange,
    /// Stop the transfer, read what is left to read, and finish.
    Finish,
    /// Read what has come in, and write what is left to write.
    Exchange,
    /// Nothing to do yet.
    Wait,
}

impl<C> TransferState<C> {
    pub fn new(transfer: Transfer<C>) -> (s: Self)
        ensures
            s.transfer == transfer,
            s.bytes_read == 0,
            s.bytes_written == 0,
    {
        TransferState { transfer, bytes_read: 0, bytes_written: 0 }
    }

    /// The step to take, given the control word before the step and, for
    /// the second half of a step that writes first, the control word as it
    /// is read again after the write.
    pub fn step(&self, flags: u32, flags_after_write: u32) -> (s: Step)
        ensures
            s == (if flags & DONE != 0 {
                if self.bytes_written < self.transfer.buf@.len() {
                    if flags_after_write & RXR != 0 {
                        Step::WriteThenExchange
                    } else {
                        Step::Write
                    }
                } else {
                    Step::Finish
                }
            } else if flags & RXR != 0 {
                Step::Exchange
            } else {
                Step::Wait
            }),
    {
        if flags & DONE != 0 {
            if self.bytes_written < self.transfer.buf.len() {
                if flags_after_write & RXR != 0 {
                    Step::WriteThenExchange
                } else {
                    Step::Write
                }
            } else {
                Step::Finish
            }
        } else if flags & RXR != 0 {
            Step::Exchange
        } else {
            Step::Wait
        }
    }

    /// Ends the transfer: hands out what to run, and the bytes to run it
    /// with.
    pub fn done(self) -> (r: (C, Vec<u8>))
        requires
            self.transfer.callback is Some,
        ensures
            Some(r.0) == self.transfer.callback,
            r.1 == self.transfer.buf,
    {
        self.transfer.done()
    }
}

} // verus!
