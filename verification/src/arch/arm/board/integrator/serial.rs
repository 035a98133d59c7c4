//! The serial port.

use vstd::prelude::*;
use crate::mem::VirtualAddress;

verus! {

pub const SERIAL_BASE_PADDR: usize = 0x1600_0000;

pub const SERIAL_FLAG_REGISTER: usize = 0x18;

/// The flag that says that the transmit buffer is full.
pub const SERIAL_BUFFER_FULL: u32 = 0x20;

pub struct Writer {
    base: usize,
}

impl Writer {
    /// Where the registers of the port start.
    pub closed spec fn base(&self) -> usize {
        self.base
    }

    /// The port with its registers at `base`.
    pub fn new(base: VirtualAddress) -> (w: Self)
        ensures
            w.base() == base.0,
    {
        Writer { base: base.0 }
    }

    /// The port at its physical address, for use before memory is mapped.
    pub fn new_bare() -> (w: Self)
        ensures
            w.base() == SERIAL_BASE_PADDR,
    {
        Writer { base: SERIAL_BASE_PADDR }
    }

    /// The register that takes the byte to send.
    pub fn data_register(&self) -> (a: VirtualAddress)
        ensures
            a.0 == self.base(),
    {
        VirtualAddress(self.base)
    }

    /// The register that holds the flags.
    pub fn flag_register(&self) -> (a: VirtualAddress)
        requires
            self.base() + SERIAL_FLAG_REGISTER <= usize::MAX,
        ensures
            a.0 == self.base() + SERIAL_FLAG_REGISTER,
    {
        VirtualAddress(self.base + SERIAL_FLAG_REGISTER)
    }

    /// Whether the port can take the next byte, given its flags.
    pub fn is_done(flags: u32) -> (done: bool)
        ensures
            done == (flags & 0x20 == 0),
    {
        (flags & SERIAL_BUFFER_FULL) == 0
    }
}

} // verus!
