//! The Raspberry Pi 2: four cores, each with its own mailboxes and timers.

pub mod intr;
pub mod mailbox;
pub mod serial;
pub mod timer;

use vstd::prelude::*;
use crate::cpu::IPI;
use crate::mem::{PhysicalAddress, VirtualAddress};
use self::mailbox::{LocalMailbox, MailboxIndex};

verus! {

pub const NUM_CPUS: usize = 4;

pub const MMIO_PSTART: usize = 0x3f00_0000;

pub const MMIO_SIZE: usize = 0x100_0000;

pub const MMIO_PEND: usize = 0x4000_0000;

pub const MMIO_VSTART: usize = 0x1000_0000;

pub const ARM_LOCAL_PSTART: usize = 0x4000_0000;

pub const ARM_LOCAL_PEND: usize = 0x4000_1000;

pub const ARM_LOCAL_VSTART: usize = 0x1100_0000;

pub const GPIO_BASE: usize = 0x1020_0000;

/// `a` rounded up to a page boundary.
pub fn up(a: usize) -> (r: PhysicalAddress)
    requires
        a + 4095 <= usize::MAX,
    ensures
        r.0 % 4096 == 0,
        a <= r.0 < a + 4096,
{
    PhysicalAddress(crate::arch::arm::mem::up(a))
}

/// `a` rounded down to a page boundary.
pub fn down(a: usize) -> (r: PhysicalAddress)
    ensures
        r.0 % 4096 == 0,
        r.0 <= a < r.0 + 4096,
{
    PhysicalAddress(crate::arch::arm::mem::down(a))
}

/// What the board keeps for every core.
pub struct CpuServices {
    pub mailboxes: LocalMailbox,
}

/// A word to write to a device register.
#[derive(Copy, Clone, PartialEq, Eq, Structural, Debug)]
pub struct RegisterWrite {
    pub addr: VirtualAddress,
    pub value: u32,
}

/// The bit that stands for `ipi` in a mailbox word.
pub open spec fn spec_ipi_bit(ipi: IPI) -> u32 {
    match ipi {
        IPI::MEM_CHANGED => 1,
        IPI::SCHED_CHANGED => 2,
    }
}

pub fn ipi_bit(ipi: IPI) -> (bit: u32)
    ensures
        bit == spec_ipi_bit(ipi),
{
    match ipi {
        IPI::MEM_CHANGED => 1,
        IPI::SCHED_CHANGED => 2,
    }
}

/// The message with the number `i`.
pub fn int_to_ipi(i: u32) -> (ipi: IPI)
    requires
        i < 2,
    ensures
        ipi == (if i == 0 {
            IPI::MEM_CHANGED
        } else {
            IPI::SCHED_CHANGED
        }),
        spec_ipi_bit(ipi) == i + 1,
{
    match i {
        0 => IPI::MEM_CHANGED,
        _ => IPI::SCHED_CHANGED,
    }
}

/// What to write to send `ipi` to core `id`: the bit of the message, set in
/// the first mailbox of that core.  Nothing is sent before the system is
/// ready.
pub fn send_ipi(ready: bool, mailboxes: &LocalMailbox, id: usize, ipi: IPI) -> (w: Option<
    RegisterWrite,
>)
    requires
        ready ==> id < NUM_CPUS && mailboxes.wf(),
    ensures
        !ready ==> w is None,
        ready ==> w == Some(
            RegisterWrite {
                addr: mailboxes.mailboxes@[id as int].spec_set_address(MailboxIndex::MailboxZero),
                value: spec_ipi_bit(ipi),
            },
        ),
{
    if !ready {
        return None;
    }
    Some(
        RegisterWrite {
            addr: mailboxes.mailboxes[id].set_address(MailboxIndex::MailboxZero),
            value: ipi_bit(ipi),
        },
    )
}

/// What to write to take `ipi` out of the first mailbox of core `id`.
pub fn clear_ipi(mailboxes: &LocalMailbox, id: usize, ipi: IPI) -> (w: RegisterWrite)
    requires
        id < NUM_CPUS,
        mailboxes.wf(),
    ensures
        w == (RegisterWrite {
            addr: mailboxes.mailboxes@[id as int].spec_read_address(MailboxIndex::MailboxZero),
            value: spec_ipi_bit(ipi),
        }),
{
    RegisterWrite {
        addr: mailboxes.mailboxes[id].read_address(MailboxIndex::MailboxZero),
        value: ipi_bit(ipi),
    }
}

/// The messages that a mailbox word holds, lowest bit first.
pub fn pending_ipis(word: u32) -> (ipis: Vec<IPI>)
    requires
        word < 4,
    ensures
        ipis@ == spec_pending_ipis(word),
{
    let mut ipis: Vec<IPI> = Vec::new();
    if word == 1 || word == 3 {
        ipis.push(int_to_ipi(0));
    }
    if word == 2 || word == 3 {
        ipis.push(int_to_ipi(1));
    }
    assert(ipis@ =~= spec_pending_ipis(word));
    ipis
}

pub open spec fn spec_pending_ipis(word: u32) -> Seq<IPI> {
    if word == 0 {
        seq![]
    } else if word == 1 {
        seq![IPI::MEM_CHANGED]
    } else if word == 2 {
        seq![IPI::SCHED_CHANGED]
    } else {
        seq![IPI::MEM_CHANGED, IPI::SCHED_CHANGED]
    }
}

} // verus!
