//! The per-core mailboxes: four words per core that one core sets and
//! another reads and clears.

use vstd::prelude::*;
use crate::mem::VirtualAddress;

verus! {

pub const MBOX_READ_OFFSET: usize = 0x0;

pub const MBOX_WRITE_OFFSET: usize = 0x20;

pub const MBOX_STATUS_OFFSET: usize = 0x18;

pub const MAILBOX_FULL: u32 = 0x8000_0000;

pub const MAILBOX_EMPTY: u32 = 0x8000_0000;

/// Where the mailboxes of the first core lie in physical memory.
pub const LOCAL_MBOX_ADDR: usize = 0x4000_0080;

/// The highest base address that leaves room for the mailboxes of all cores.
pub const MAX_MAILBOX_BASE: usize = 0xffff_ff00;

pub struct LocalMailbox {
    pub mailboxes: [CpuLocalMailbox; 4],
}

#[derive(Copy, Clone, PartialEq, Eq, Structural, Debug)]
pub enum MailboxIndex {
    MailboxZero,
    MailboxOne,
    MailboxTwo,
    MailboxThree,
}

#[derive(Copy, Clone, Debug)]
pub struct CpuLocalMailbox {
    write: VirtualAddress,
    read: VirtualAddress,
}

impl MailboxIndex {
    pub open spec fn spec_number(self) -> usize {
        match self {
            MailboxIndex::MailboxZero => 0,
            MailboxIndex::MailboxOne => 1,
            MailboxIndex::MailboxTwo => 2,
            MailboxIndex::MailboxThree => 3,
        }
    }

    pub fn number(self) -> (n: usize)
        ensures
            n == self.spec_number(),
    {
        match self {
            MailboxIndex::MailboxZero => 0,
            MailboxIndex::MailboxOne => 1,
            MailboxIndex::MailboxTwo => 2,
            MailboxIndex::MailboxThree => 3,
        }
    }
}

impl CpuLocalMailbox {
    /// Where the set registers of the core start.
    pub closed spec fn base(&self) -> usize {
        self.write.0
    }

    pub closed spec fn wf(&self) -> bool {
        self.write.0 <= MAX_MAILBOX_BASE && self.read.0 == self.write.0 + 0x40
    }

    /// The register that sets bits of mailbox `num`.
    pub open spec fn spec_set_address(&self, num: MailboxIndex) -> VirtualAddress {
        VirtualAddress((self.base() + 4 * num.spec_number()) as usize)
    }

    /// The register that reads mailbox `num`, and clears bits of it.
    pub open spec fn spec_read_address(&self, num: MailboxIndex) -> VirtualAddress {
        VirtualAddress((self.base() + 0x40 + 4 * num.spec_number()) as usize)
    }

    /// The mailboxes of the core whose set registers start at `base`.
    pub fn new(base: VirtualAddress) -> (m: Self)
        requires
            base.0 <= MAX_MAILBOX_BASE,
        ensures
            m.wf(),
            m.base() == base.0,
    {
        CpuLocalMailbox { write: base, read: base.uoffset(0x40) }
    }

    pub fn set_address(&self, num: MailboxIndex) -> (a: VirtualAddress)
        requires
            self.wf(),
        ensures
            a == self.spec_set_address(num),
    {
        self.write.uoffset(num.number() * 4)
    }

    pub fn read_address(&self, num: MailboxIndex) -> (a: VirtualAddress)
        requires
            self.wf(),
        ensures
            a == self.spec_read_address(num),
    {
        self.read.uoffset(num.number() * 4)
    }
}

impl LocalMailbox {
    /// The mailboxes of core `i` start sixteen bytes after those of core
    /// `i - 1`.
    pub open spec fn wf(&self) -> bool {
        forall|i: int|
            0 <= i < 4 ==> (#[trigger] self.mailboxes@[i]).wf() && self.mailboxes@[i].base()
                == self.mailboxes@[0].base() + 0x10 * i
    }

    /// The mailboxes of the four cores, the first of which has its set
    /// registers at `base`.
    pub fn new(base: VirtualAddress) -> (m: Self)
        requires
            base.0 <= MAX_MAILBOX_BASE - 0x30,
        ensures
            m.wf(),
            m.mailboxes@[0].base() == base.0,
    {
        LocalMailbox {
            mailboxes: [
                CpuLocalMailbox::new(base.uoffset(0x10 * 0)),
                CpuLocalMailbox::new(base.uoffset(0x10 * 1)),
                CpuLocalMailbox::new(base.uoffset(0x10 * 2)),
                CpuLocalMailbox::new(base.uoffset(0x10 * 3)),
            ],
        }
    }
}

} // verus!
