//! The serial port.

use vstd::prelude::*;
use crate::mem::VirtualAddress;

verus! {

pub const SERIAL_BASE_PADDR: usize = 0x3f20_1000;

pub const DATA_REG_OFFSET: usize = 0;

pub const FLAG_REG_OFFSET: usize = 0x18;

/// The flag that says that the transmitter has nothing left to send.
pub const UARTFR_TXFE: u32 = 0x80;

pub struct Writer {
    base: usize,
}

impl Writer {
    /// Where the registers of the port start.
    pub closed spec fn base(&self) -> usize {
        self.base
    }

    /// The port with its registers at `base`.
    pub fn new(base: VirtualAddress) -> (w: Self)
        ensures
            w.base() == base.0,
    {
        Writer { base: base.0 }
    }

    /// The port at its physical address, for use before memory is mapped.
    pub fn new_bare() -> (w: Self)
        ensures
            w.base() == SERIAL_BASE_PADDR,
    {
        Writer { base: SERIAL_BASE_PADDR }
    }

    /// The register that takes the byte to send.
    pub fn data_register(&self) -> (a: VirtualAddress)
        requires
            self.base() + FLAG_REG_OFFSET <= usize::MAX,
        ensures
            a.0 == self.base() + DATA_REG_OFFSET,
    {
        VirtualAddress(self.base + DATA_REG_OFFSET)
    }

    /// The register that holds the flags.
    pub fn flag_register(&self) -> (a: VirtualAddress)
        requires
            self.base() + FLAG_REG_OFFSET <= usize::MAX,
        ensures
            a.0 == self.base() + FLAG_REG_OFFSET,
    {
        VirtualAddress(self.base + FLAG_REG_OFFSET)
    }

    /// Whether the port can take the next byte, given its flags.
    pub fn is_done(flags: u32) -> (done: bool)
        ensures
            done == (flags & 0x80 != 0),
    {
        (flags & UARTFR_TXFE) != 0
    }
}

} // verus!
