//! Arithmetic on the processor's status and control words.  Reading and
//! writing the registers themselves is left to the caller.

use vstd::prelude::*;

verus! {

pub const USER_MODE: u32 = 0b10000;

pub const FIQ_MODE: u32 = 0b10001;

pub const IRQ_MODE: u32 = 0b10010;

pub const SUPER_MODE: u32 = 0b10011;

pub const ABRT_MODE: u32 = 0b10111;

pub const UNDEF_MODE: u32 = 0b11011;

pub const SYS_MODE: u32 = 0b11111;

pub const MODE_MASK: u32 = 0b11111;

pub const DISABLE_FIQ: u32 = 0x40;

pub const DISABLE_IRQ: u32 = 0x80;

pub const MMU_BIT: u32 = 0x1;

pub const DCACHE_BIT: u32 = 0x4;

pub const ICACHE_BIT: u32 = 0x1000;

pub const XP_BIT: u32 = 0x80_0000;

/// The status word with both interrupt lines masked.
pub fn disable_interrupts(cpsr: u32) -> (r: u32)
    ensures
        r == cpsr | 0xC0,
{
    proof {
        lemma_interrupt_masks();
    }
    cpsr | (DISABLE_FIQ | DISABLE_IRQ)
}

/// The status word with both interrupt lines open.
pub fn enable_interrupts(cpsr: u32) -> (r: u32)
    ensures
        r == cpsr & !0xC0u32,
{
    proof {
        lemma_interrupt_masks();
    }
    cpsr & !(DISABLE_FIQ | DISABLE_IRQ)
}

/// The status word after interrupts have been switched on (`b`) or off.
pub fn set_interrupts(cpsr: u32, b: bool) -> (r: u32)
    ensures
        r == spec_set_interrupts(cpsr, b),
{
    if b {
        enable_interrupts(cpsr)
    } else {
        disable_interrupts(cpsr)
    }
}

/// Whether the status word lets interrupt requests through.
pub fn get_interrupts(cpsr: u32) -> (r: bool)
    ensures
        r == spec_get_interrupts(cpsr),
{
    proof {
        lemma_interrupt_masks();
    }
    (cpsr & (DISABLE_IRQ | DISABLE_IRQ)) == 0
}

proof fn lemma_interrupt_masks()
    ensures
        DISABLE_FIQ | DISABLE_IRQ == 0xC0u32,
        DISABLE_IRQ | DISABLE_IRQ == 0x80u32,
{
    assert(0x40u32 | 0x80u32 == 0xC0u32 && 0x80u32 | 0x80u32 == 0x80u32) by (bit_vector);
}

pub open spec fn spec_set_interrupts(cpsr: u32, b: bool) -> u32 {
    if b {
        cpsr & !0xC0u32
    } else {
        cpsr | 0xC0u32
    }
}

pub open spec fn spec_get_interrupts(cpsr: u32) -> bool {
    cpsr & 0x80u32 == 0
}

/// Reading the interrupt flag gives what was last set, and setting it leaves
/// every other bit of the status word alone.
pub proof fn law_set_then_get_interrupts(cpsr: u32, b: bool)
    ensures
        spec_get_interrupts(spec_set_interrupts(cpsr, b)) == b,
        spec_set_interrupts(cpsr, b) & !0xC0u32 == cpsr & !0xC0u32,
        spec_set_interrupts(spec_set_interrupts(cpsr, b), b) == spec_set_interrupts(cpsr, b),
{
    assert((cpsr & !0xC0u32) & 0x80u32 == 0) by (bit_vector);
    assert((cpsr | 0xC0u32) & 0x80u32 != 0) by (bit_vector);
    assert((cpsr & !0xC0u32) & !0xC0u32 == cpsr & !0xC0u32) by (bit_vector);
    assert((cpsr | 0xC0u32) & !0xC0u32 == cpsr & !0xC0u32) by (bit_vector);
    assert((cpsr | 0xC0u32) | 0xC0u32 == cpsr | 0xC0u32) by (bit_vector);
}

/// The mode that a status word selects.
pub open spec fn spec_mode(psr: u32) -> u32 {
    psr & 0b11111
}

/// The status word that takes the processor from the mode of `cpsr` into the
/// mode that `spsr` was saved in, to get at the banked registers of that
/// mode; a saved user mode is entered as system mode, which shares its
/// registers.  `None` where the two modes are the same: there is nothing
/// banked to get at.
pub fn mode_switch_word(cpsr: u32, spsr: u32) -> (r: Option<u32>)
    ensures
        spec_mode(cpsr) == spec_mode(spsr) ==> r is None,
        spec_mode(cpsr) != spec_mode(spsr) ==> r == Some(
            (cpsr & !0b11111u32) | if spec_mode(spsr) == USER_MODE {
                SYS_MODE
            } else {
                spec_mode(spsr)
            },
        ),
{
    let frommode = cpsr & MODE_MASK;
    let mut tomode = MODE_MASK & spsr;
    assert(0b11111u32 & spsr == spsr & 0b11111u32) by (bit_vector);
    if frommode == tomode {
        return None;
    }
    if tomode == USER_MODE {
        tomode = SYS_MODE;
    }
    Some((cpsr & !(MODE_MASK)) | tomode)
}

/// The control word that switches on the memory unit, both caches and the
/// extended page tables, with every other bit as it was.
pub fn enable_mmu(cr: u32) -> (r: u32)
    ensures
        r == cr | 0x80_1005,
{
    let mut word = cr;
    word |= MMU_BIT;
    word |= DCACHE_BIT;
    word |= ICACHE_BIT;
    word |= XP_BIT;
    assert(((((cr | 0x1) | 0x4) | 0x1000) | 0x80_0000) == cr | 0x80_1005) by (bit_vector);
    word
}

/// The number of the core, out of its multiprocessor affinity word.
pub fn get_current_cpu_id(mpidr: u32) -> (id: usize)
    ensures
        id == mpidr & 0b111,
        id < 8,
{
    assert(mpidr & 0b111 < 8) by (bit_vector);
    (mpidr & 0b111) as usize
}

} // verus!
