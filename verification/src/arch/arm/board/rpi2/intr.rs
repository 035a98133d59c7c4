//! The interrupt controller of a core: four timer lines and four mailbox
//! lines that can be switched on and off, and a word that shows what is
//! pending.

use vstd::prelude::*;
use crate::arch::arm::cpu::get_current_cpu_id;
use crate::mem::VirtualAddress;

verus! {

pub const PIC_BASE_PADDR: usize = 0x4000_0040;

pub const TIMER_CONTROL_OFFSET: usize = 0;

pub const MAILBOX_CONTROL_OFFSET: usize = 0x10;

pub const INTR_SOURCE_OFFSET: usize = 0x20;

/// The lines that a core controller knows.
pub const KNOWN_LINES: usize = 12;

#[allow(non_camel_case_types)]
#[derive(Copy, Clone, PartialEq, Eq, Structural, Debug)]
pub enum Interrupts {
    CNTPSIRQ,
    CNTPNSIRQ,
    CNTHPIRQ,
    CNTVIRQ,
    Mailbox0,
    Mailbox1,
    Mailbox2,
    Mailbox3,
    GPU,
    PMU,
    AXI,
    LocalTimer,
}

impl Interrupts {
    pub open spec fn spec_number(self) -> usize {
        match self {
            Interrupts::CNTPSIRQ => 0,
            Interrupts::CNTPNSIRQ => 1,
            Interrupts::CNTHPIRQ => 2,
            Interrupts::CNTVIRQ => 3,
            Interrupts::Mailbox0 => 4,
            Interrupts::Mailbox1 => 5,
            Interrupts::Mailbox2 => 6,
            Interrupts::Mailbox3 => 7,
            Interrupts::GPU => 8,
            Interrupts::PMU => 9,
            Interrupts::AXI => 10,
            Interrupts::LocalTimer => 11,
        }
    }

    /// The line of the interrupt.
    pub fn number(self) -> (n: usize)
        ensures
            n == self.spec_number(),
            n < KNOWN_LINES,
    {
        match self {
            Interrupts::CNTPSIRQ => 0,
            Interrupts::CNTPNSIRQ => 1,
            Interrupts::CNTHPIRQ => 2,
            Interrupts::CNTVIRQ => 3,
            Interrupts::Mailbox0 => 4,
            Interrupts::Mailbox1 => 5,
            Interrupts::Mailbox2 => 6,
            Interrupts::Mailbox3 => 7,
            Interrupts::GPU => 8,
            Interrupts::PMU => 9,
            Interrupts::AXI => 10,
            Interrupts::LocalTimer => 11,
        }
    }
}

/// The two control words of a core controller.
#[derive(Copy, Clone, PartialEq, Eq, Structural, Debug)]
pub struct ControlWords {
    pub timers: u32,
    pub mailboxes: u32,
}

/// The control words with line `interrupt` switched on (`on`) or off: a
/// timer line is a bit of the first word, a mailbox line a bit of the
/// second, and the other lines have no switch.
pub open spec fn spec_switch(words: ControlWords, interrupt: usize, on: bool) -> ControlWords {
    if interrupt < 4 {
        ControlWords {
            timers: if on {
                words.timers | (1u32 << interrupt as u32)
            } else {
                words.timers & !(1u32 << interrupt as u32)
            },
            ..words
        }
    } else if interrupt < 8 {
        ControlWords {
            mailboxes: if on {
                words.mailboxes | (1u32 << (interrupt - 4) as u32)
            } else {
                words.mailboxes & !(1u32 << (interrupt - 4) as u32)
            },
            ..words
        }
    } else {
        words
    }
}

pub struct CorePIC {
    vbase: VirtualAddress,
}

impl CorePIC {
    /// Where the registers of the controller start.
    pub closed spec fn vbase(&self) -> usize {
        self.vbase.0
    }

    /// The controller of the core that makes the call, whose affinity word
    /// is `mpidr`, where the controller of the first core lies at `base`.
    pub fn new(base: VirtualAddress, mpidr: u32) -> (p: Self)
        requires
            base.0 + 28 <= usize::MAX,
        ensures
            p.vbase() == base.0 + 4 * (mpidr & 0b111),
    {
        let cpuid = get_current_cpu_id(mpidr);
        Self::new_for_cpu(base, cpuid)
    }

    /// The controller of core `cpuid`, where the controller of the first
    /// core lies at `base`.
    pub fn new_for_cpu(base: VirtualAddress, cpuid: usize) -> (p: Self)
        requires
            cpuid < 8,
            base.0 + 4 * cpuid <= usize::MAX,
        ensures
            p.vbase() == base.0 + 4 * cpuid,
    {
        CorePIC { vbase: base.uoffset(4 * cpuid) }
    }

    /// The register that switches the timer lines.
    pub fn timer_control_register(&self) -> (a: VirtualAddress)
        requires
            self.vbase() + INTR_SOURCE_OFFSET <= usize::MAX,
        ensures
            a.0 == self.vbase() + TIMER_CONTROL_OFFSET,
    {
        self.vbase.uoffset(TIMER_CONTROL_OFFSET)
    }

    /// The register that switches the mailbox lines.
    pub fn mailbox_control_register(&self) -> (a: VirtualAddress)
        requires
            self.vbase() + INTR_SOURCE_OFFSET <= usize::MAX,
        ensures
            a.0 == self.vbase() + MAILBOX_CONTROL_OFFSET,
    {
        self.vbase.uoffset(MAILBOX_CONTROL_OFFSET)
    }

    /// The register that shows what is pending.
    pub fn source_register(&self) -> (a: VirtualAddress)
        requires
            self.vbase() + INTR_SOURCE_OFFSET <= usize::MAX,
        ensures
            a.0 == self.vbase() + INTR_SOURCE_OFFSET,
    {
        self.vbase.uoffset(INTR_SOURCE_OFFSET)
    }

    /// Where the registers of the controller start.
    pub fn base(&self) -> (a: VirtualAddress)
        ensures
            a.0 == self.vbase(),
    {
        self.vbase
    }

    /// The lines that the controller answers for.
    pub fn range(&self) -> (r: (usize, usize))
        ensures
            r == (0usize, 8usize),
    {
        (0, 8)
    }

    /// The control words after line `interrupt` has been switched on.
    pub fn enable(words: ControlWords, interrupt: usize) -> (r: ControlWords)
        requires
            interrupt < KNOWN_LINES,
        ensures
            r == spec_switch(words, interrupt, true),
    {
        let line = interrupt as u32;
        assert(line < 12 ==> (line < 4 ==> (1u32 << line) & 0xf == 1u32 << line && ((1u32 << line)
            & 0xf0) >> 4 == 0) && (4 <= line < 8 ==> (1u32 << line) & 0xf == 0 && ((1u32 << line)
            & 0xf0) >> 4 == 1u32 << ((line - 4) as u32)) && (line >= 8 ==> (1u32 << line) & 0xf == 0
            && ((1u32 << line) & 0xf0) >> 4 == 0)) by (bit_vector);
        let t = words.timers;
        let m = words.mailboxes;
        assert(t | 0 == t && m | 0 == m) by (bit_vector);
        let intr: u32 = 1u32 << line;
        let timers = intr & 0xf;
        let msgboxs = intr & 0xf0;
        ControlWords { timers: words.timers | timers, mailboxes: words.mailboxes | (msgboxs >> 4) }
    }

    /// The control words after line `interrupt` has been switched off.
    pub fn disable(words: ControlWords, interrupt: usize) -> (r: ControlWords)
        requires
            interrupt < KNOWN_LINES,
        ensures
            r == spec_switch(words, interrupt, false),
    {
        let line = interrupt as u32;
        assert(line < 12 ==> (line < 4 ==> (1u32 << line) & 0xf == 1u32 << line && ((1u32 << line)
            & 0xf0) >> 4 == 0) && (4 <= line < 8 ==> (1u32 << line) & 0xf == 0 && ((1u32 << line)
            & 0xf0) >> 4 == 1u32 << ((line - 4) as u32)) && (line >= 8 ==> (1u32 << line) & 0xf == 0
            && ((1u32 << line) & 0xf0) >> 4 == 0)) by (bit_vector);
        let t = words.timers;
        let m = words.mailboxes;
        assert(t & !0u32 == t && m & !0u32 == m) by (bit_vector);
        let intr: u32 = 1u32 << line;
        let timers = intr & 0xf;
        let msgboxs = intr & 0xf0;
        ControlWords {
            timers: words.timers & !timers,
            mailboxes: words.mailboxes & !(msgboxs >> 4),
        }
    }

    /// Whether line `interrupt` is pending according to the source word.
    pub fn is_interrupted(source: u32, interrupt: usize) -> (pending: bool)
        requires
            interrupt < KNOWN_LINES,
        ensures
            pending == (source & (1u32 << interrupt as u32) != 0),
    {
        let line = interrupt as u32;
        assert(line < 12 ==> ((source & 0xfff) & (1u32 << line) == (1u32 << line)) == (source & (
        1u32 << line) != 0)) by (bit_vector);
        let intr: u32 = 1u32 << line;
        (source & 0xfff) & intr == intr
    }
}

} // verus!
