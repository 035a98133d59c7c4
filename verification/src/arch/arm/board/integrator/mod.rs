//! The Integrator/CP: one core, one interrupt controller for all devices.

pub mod intr;
pub mod serial;
pub mod timer;

use vstd::prelude::*;

verus! {

pub const MMIO_PSTART: usize = 0x1000_0000;

pub const MMIO_PEND: usize = 0x1f00_0000;

pub const MMIO_VSTART: usize = 0x1000_0000;

/// What the board keeps for every core: nothing.
pub struct CpuServices {}

} // verus!
