//! The Raspberry Pi: one core, with its devices behind one controller.

pub mod gpio;
pub mod intr;
pub mod spi;
pub mod timer;

use vstd::prelude::*;

verus! {

pub const MMIO_PSTART: usize = 0x2000_0000;

pub const MMIO_SIZE: usize = 0x100_0000;

pub const MMIO_PEND: usize = 0x2100_0000;

pub const MMIO_VSTART: usize = 0x1000_0000;

pub const GPIO_BASE: usize = 0x1020_0000;

} // verus!
