//! Sections of code that the core's own interrupt handlers cannot cut into.
//!
//! A section starts by noting whether interrupts were on and switching them
//! off, and ends by putting the noted state back.  The status word travels as
//! an argument; the caller has read it from the core and writes it back.

use vstd::prelude::*;
use crate::arch::arm::cpu::{get_interrupts, set_interrupts, spec_get_interrupts, spec_set_interrupts};

verus! {

/// What a section noted on entry.
pub struct InterruptGuardOneShot {
    to_state: bool,
}

/// Opens a section: interrupts are off in `cpsr` afterwards, and the guard
/// remembers whether they were on.
pub fn no_interrupts(cpsr: &mut u32) -> (g: InterruptGuardOneShot)
    ensures
        g.to_state() == spec_get_interrupts(*old(cpsr)),
        *final(cpsr) == spec_set_interrupts(*old(cpsr), false),
{
    let old_state = get_interrupts(*cpsr);
    *cpsr = set_interrupts(*cpsr, false);
    InterruptGuardOneShot { to_state: old_state }
}

impl InterruptGuardOneShot {
    /// Whether interrupts were on when the section was opened.
    pub closed spec fn to_state(&self) -> bool {
        self.to_state
    }

    /// Closes the section: interrupts are as they were on entry.
    pub fn release(self, cpsr: &mut u32)
        ensures
            *final(cpsr) == spec_set_interrupts(*old(cpsr), self.to_state()),
    {
        *cpsr = set_interrupts(*cpsr, self.to_state);
    }
}

/// A value that is only touched with interrupts off.
pub struct InterruptGuard<T> {
    data: T,
}

/// Access to the value of an [`InterruptGuard`] for the length of a section.
pub struct InterruptGuardHelper<'a, T> {
    pub to_state: bool,
    pub data: &'a mut T,
}

impl<T> InterruptGuard<T> {
    /// The guarded value.
    pub closed spec fn value(&self) -> T {
        self.data
    }

    pub fn new(user_data: T) -> (g: InterruptGuard<T>)
        ensures
            g.value() == user_data,
    {
        InterruptGuard { data: user_data }
    }

    /// A look at the value without opening a section, for a caller that
    /// cannot be interrupted.
    pub fn peek(&self) -> (r: &T)
        ensures
            *r == self.value(),
    {
        &self.data
    }

    /// Opens a section and hands out the value.
    pub fn no_interrupts(&mut self, cpsr: &mut u32) -> (h: InterruptGuardHelper<'_, T>)
        ensures
            h.to_state == spec_get_interrupts(*old(cpsr)),
            *final(cpsr) == spec_set_interrupts(*old(cpsr), false),
            *h.data == old(self).value(),
            final(self).value() == *final(h.data),
    {
        let old_state = get_interrupts(*cpsr);
        *cpsr = set_interrupts(*cpsr, false);
        InterruptGuardHelper { to_state: old_state, data: &mut self.data }
    }
}

impl<'a, T> InterruptGuardHelper<'a, T> {
    pub fn deref(&self) -> (r: &T)
        ensures
            *r == *old(self.data),
    {
        &*self.data
    }

    pub fn deref_mut(&mut self) -> (r: &mut T)
        ensures
            *r == *old(self).data,
            *final(self).data == *final(r),
            final(self).to_state == old(self).to_state,
            *final(final(self).data) == *final(old(self).data),
    {
        &mut *self.data
    }

    /// Closes the section: interrupts are as they were on entry, and the
    /// value stays as the section left it.
    pub fn release(self, cpsr: &mut u32)
        ensures
            *final(cpsr) == spec_set_interrupts(*old(cpsr), self.to_state),
            *final(self.data) == *old(self.data),
    {
        *cpsr = set_interrupts(*cpsr, self.to_state);
    }
}

/// The status word after a section that started from `cpsr`: interrupts
/// went off, and were put back as they had been.
pub open spec fn after_section(cpsr: u32) -> u32 {
    spec_set_interrupts(spec_set_interrupts(cpsr, false), spec_get_interrupts(cpsr))
}

/// A section leaves the interrupt flag as it found it, whatever it was.
pub proof fn law_section_restores_interrupts(cpsr: u32)
    ensures
        !spec_get_interrupts(spec_set_interrupts(cpsr, false)),
        spec_get_interrupts(
            spec_set_interrupts(spec_set_interrupts(cpsr, false), spec_get_interrupts(cpsr)),
        ) == spec_get_interrupts(cpsr),
{
    crate::arch::arm::cpu::law_set_then_get_interrupts(cpsr, false);
    crate::arch::arm::cpu::law_set_then_get_interrupts(
        spec_set_interrupts(cpsr, false),
        spec_get_interrupts(cpsr),
    );
}

} // verus!
