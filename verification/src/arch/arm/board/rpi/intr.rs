//! The interrupt controller: three words of thirty-two lines each.

use vstd::prelude::*;

verus! {

/// The number of lines of the controller.
pub const LINES: usize = 96;

#[allow(non_camel_case_types)]
#[derive(Copy, Clone, PartialEq, Eq, Structural, Debug)]
pub enum Interrupts {
    AUX,
    I2C_SPI_SLV,
    PWA0,
    PWA1,
    SMI,
    GPIO_INT0,
    GPIO_INT1,
    GPIO_INT2,
    GPIO_INT3,
    I2C,
    SPI,
    PCM,
    UART,
}

impl Interrupts {
    pub open spec fn spec_number(self) -> usize {
        match self {
            Interrupts::AUX => 29,
            Interrupts::I2C_SPI_SLV => 43,
            Interrupts::PWA0 => 45,
            Interrupts::PWA1 => 46,
            Interrupts::SMI => 48,
            Interrupts::GPIO_INT0 => 49,
            Interrupts::GPIO_INT1 => 50,
            Interrupts::GPIO_INT2 => 51,
            Interrupts::GPIO_INT3 => 52,
            Interrupts::I2C => 53,
            Interrupts::SPI => 54,
            Interrupts::PCM => 55,
            Interrupts::UART => 57,
        }
    }

    /// The line of the interrupt.
    pub fn number(self) -> (n: usize)
        ensures
            n == self.spec_number(),
            n < LINES,
    {
        match self {
            Interrupts::AUX => 29,
            Interrupts::I2C_SPI_SLV => 43,
            Interrupts::PWA0 => 45,
            Interrupts::PWA1 => 46,
            Interrupts::SMI => 48,
            Interrupts::GPIO_INT0 => 49,
            Interrupts::GPIO_INT1 => 50,
            Interrupts::GPIO_INT2 => 51,
            Interrupts::GPIO_INT3 => 52,
            Interrupts::I2C => 53,
            Interrupts::SPI => 54,
            Interrupts::PCM => 55,
            Interrupts::UART => 57,
        }
    }
}

/// The bit of one line in the three words of the controller.
#[derive(Copy, Clone, PartialEq, Eq, Structural, Debug)]
pub struct LineFlags {
    pub basic: u32,
    pub flags1: u32,
    pub flags2: u32,
}

/// The word that line `intr_num` belongs to, and its place there: the first
/// thirty-two lines are in the basic word, all others in the last.
pub fn split_intr(intr_num: usize) -> (f: LineFlags)
    requires
        intr_num < LINES,
    ensures
        f.flags1 == 0,
        intr_num < 32 ==> f.basic == 1u32 << intr_num as u32 && f.flags2 == 0,
        32 <= intr_num < 64 ==> f.basic == 0 && f.flags2 == 1u32 << (intr_num - 32) as u32,
        64 <= intr_num ==> f.basic == 0 && f.flags2 == 1u32 << (intr_num - 64) as u32,
{
    if intr_num >= 64 {
        LineFlags { basic: 0, flags1: 0, flags2: 1u32 << ((intr_num - 64) as u32) }
    } else if intr_num >= 32 {
        LineFlags { basic: 0, flags1: 0, flags2: 1u32 << ((intr_num - 32) as u32) }
    } else {
        LineFlags { basic: 1u32 << (intr_num as u32), flags1: 0, flags2: 0 }
    }
}

/// Whether a line is pending, given its bits and the three pending words.
pub fn is_interrupted(f: LineFlags, basic: u32, pending1: u32, pending2: u32) -> (pending: bool)
    ensures
        pending == (basic & f.basic != 0 || pending1 & f.flags1 != 0 || pending2 & f.flags2 != 0),
{
    !((basic & f.basic) == 0 && (pending1 & f.flags1) == 0 && (pending2 & f.flags2) == 0)
}

} // verus!
