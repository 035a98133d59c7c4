//! Devices.

pub mod serial;
pub mod spi;

use vstd::prelude::*;

verus! {

pub trait Device: Sized {
    fn new() -> Self;

    fn attach(&mut self);
}

} // verus!
