//! The boards: where their devices lie and how their registers are laid out.

pub mod integrator;
pub mod rpi;
pub mod rpi2;
