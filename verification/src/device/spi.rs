//! The serial peripheral interface, from the master's side.

use vstd::prelude::*;

verus! {

#[derive(Copy, Clone, PartialEq, Eq, Structural, Debug)]
pub enum ClockPolarity {
    ResetIsLow,
    ResetIsHigh,
}

#[derive(Copy, Clone, PartialEq, Eq, Structural, Debug)]
pub enum ClockPhase {
    Middle,
    Begin,
}

#[derive(Copy, Clone, PartialEq, Eq, Structural, Debug)]
pub struct Hz(pub u32);

/// Bytes to exchange with a slave, and what to run with the bytes that came
/// back.
pub struct Transfer<C> {
    pub buf: Vec<u8>,
    pub slave: usize,
    pub callback: Option<C>,
}

#[derive(Copy, Clone, Debug)]
pub struct Configuration {
    pub clock_polarity: Option<ClockPolarity>,
    pub clock_phase: Option<ClockPhase>,
    pub speed: Option<Hz>,
}

impl<C> Transfer<C> {
    pub fn new(buf: Vec<u8>, slave: usize, callback: C) -> (t: Self)
        ensures
            t.buf == buf,
            t.slave == slave,
            t.callback == Some(callback),
    {
        Transfer { buf, slave, callback: Some(callback) }
    }

    /// Ends the transfer: hands out what to run, and the bytes to run it
    /// with.
    pub fn done(self) -> (r: (C, Vec<u8>))
        requires
            self.callback is Some,
        ensures
            Some(r.0) == self.callback,
            r.1 == self.buf,
    {
        let Transfer { buf, slave: _, callback } = self;
        (callback.unwrap(), buf)
    }
}

pub trait SPIMaster<C> {
    fn confiure(&mut self, c: Configuration) -> Result<(), ()>;

    fn start_transfer(&mut self, t: Transfer<C>) -> Result<(), ()>;
}

} // verus!
