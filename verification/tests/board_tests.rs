use armkernel::arch::arm::board::integrator::timer::{Timer, TimerWrite};
use armkernel::arch::arm::board::rpi::spi::{confiure, start_transfer, SetupWords, Step, TransferState, DONE, RXR};
use armkernel::arch::arm::cpu::mode_switch_word;
use armkernel::device::spi::{ClockPhase, ClockPolarity, Hz, Transfer};
use armkernel::arch::arm::board::integrator;
use armkernel::arch::arm::board::rpi::gpio::{pin_place, read_fs, to_func_select, update_fs, FunctionSelect};
use armkernel::arch::arm::board::rpi::intr::{is_interrupted, split_intr, Interrupts as RpiInterrupts};
use armkernel::arch::arm::board::rpi::timer::{add_to_match, matchToFlag, Matches};
use armkernel::arch::arm::board::rpi2::intr::{ControlWords, CorePIC, Interrupts};
use armkernel::arch::arm::board::rpi2::mailbox::{CpuLocalMailbox, LocalMailbox, MailboxIndex};
use armkernel::arch::arm::board::rpi2::serial::Writer;
use armkernel::arch::arm::board::rpi2::timer::{GlobalTimer, TimerWords};
use armkernel::arch::arm::board::rpi2::{
    clear_ipi, down, int_to_ipi, ipi_bit, pending_ipis, send_ipi, up, RegisterWrite,
};
use armkernel::cpu::{CPU, IPI};
use armkernel::mem::{PhysicalAddress, VirtualAddress};

#[test]
fn mailbox_registers() {
    let m = CpuLocalMailbox::new(VirtualAddress(0x1100_0080));
    assert_eq!(m.set_address(MailboxIndex::MailboxZero), VirtualAddress(0x1100_0080));
    assert_eq!(m.set_address(MailboxIndex::MailboxThree), VirtualAddress(0x1100_008c));
    assert_eq!(m.read_address(MailboxIndex::MailboxZero), VirtualAddress(0x1100_00c0));
    assert_eq!(m.read_address(MailboxIndex::MailboxTwo), VirtualAddress(0x1100_00c8));
    let all = LocalMailbox::new(VirtualAddress(0x1100_0080));
    assert_eq!(all.mailboxes[3].set_address(MailboxIndex::MailboxOne), VirtualAddress(0x1100_00b4));
    assert_eq!(all.mailboxes[1].read_address(MailboxIndex::MailboxZero), VirtualAddress(0x1100_00d0));
}

#[test]
fn messages_between_cores() {
    let boxes = LocalMailbox::new(VirtualAddress(0x1100_0080));
    assert_eq!(send_ipi(false, &boxes, 2, IPI::MEM_CHANGED), None);
    assert_eq!(
        send_ipi(true, &boxes, 2, IPI::SCHED_CHANGED),
        Some(RegisterWrite { addr: VirtualAddress(0x1100_00a0), value: 2 })
    );
    assert_eq!(
        clear_ipi(&boxes, 1, IPI::MEM_CHANGED),
        RegisterWrite { addr: VirtualAddress(0x1100_00d0), value: 1 }
    );
    assert_eq!(ipi_bit(IPI::MEM_CHANGED), 1);
    assert_eq!(int_to_ipi(0), IPI::MEM_CHANGED);
    assert_eq!(int_to_ipi(1), IPI::SCHED_CHANGED);
    assert_eq!(pending_ipis(0), vec![]);
    assert_eq!(pending_ipis(2), vec![IPI::SCHED_CHANGED]);
    assert_eq!(pending_ipis(3), vec![IPI::MEM_CHANGED, IPI::SCHED_CHANGED]);
}

#[test]
fn message_to_the_others_skips_the_sender() {
    let cpu: CPU<u32> = CPU::new(2);
    assert_eq!(cpu.send_ipi_to_others(4), vec![0, 1, 3]);
    assert_eq!(cpu.get_id(), 2);
    let only: CPU<u32> = CPU::new(0);
    assert_eq!(only.send_ipi_to_others(1), Vec::<usize>::new());
}

#[test]
fn core_controller_switches() {
    let w = ControlWords { timers: 0, mailboxes: 0 };
    let w = CorePIC::enable(w, Interrupts::CNTVIRQ.number());
    assert_eq!(w, ControlWords { timers: 8, mailboxes: 0 });
    let w = CorePIC::enable(w, Interrupts::Mailbox0.number());
    assert_eq!(w, ControlWords { timers: 8, mailboxes: 1 });
    let w = CorePIC::enable(w, Interrupts::Mailbox3.number());
    assert_eq!(w, ControlWords { timers: 8, mailboxes: 9 });
    // the other lines have no switch
    assert_eq!(CorePIC::enable(w, Interrupts::GPU.number()), w);
    assert_eq!(CorePIC::disable(w, Interrupts::PMU.number()), w);
    let w = CorePIC::disable(w, Interrupts::Mailbox0.number());
    assert_eq!(w, ControlWords { timers: 8, mailboxes: 8 });
    let w = CorePIC::disable(w, Interrupts::CNTVIRQ.number());
    assert_eq!(w, ControlWords { timers: 0, mailboxes: 8 });
    assert!(CorePIC::is_interrupted(0x10, Interrupts::Mailbox0.number()));
    assert!(!CorePIC::is_interrupted(0x10, Interrupts::CNTVIRQ.number()));
    assert!(CorePIC::is_interrupted(0x808, 11));
}

#[test]
fn core_controller_addresses() {
    let p = CorePIC::new_for_cpu(VirtualAddress(0x1100_0040), 3);
    assert_eq!(p.range(), (0, 8));
    let _q = CorePIC::new(VirtualAddress(0x1100_0040), 0x8000_0f02);
}

#[test]
fn core_timer_words() {
    let t = GlobalTimer::new(960_000);
    assert_eq!(t.start_timer(), TimerWords { tval: 960_000, ctl: 1 });
    assert_eq!(t.interrupted(), 960_000);
}

#[test]
fn serial_registers() {
    let w = Writer::new(VirtualAddress(0x1020_1000));
    assert_eq!(w.data_register(), VirtualAddress(0x1020_1000));
    assert_eq!(w.flag_register(), VirtualAddress(0x1020_1018));
    let b = Writer::new_bare();
    assert_eq!(b.data_register(), VirtualAddress(0x3f20_1000));
    assert!(Writer::is_done(0x80));
    assert!(!Writer::is_done(0x7f));
    let i = integrator::serial::Writer::new_bare();
    assert_eq!(i.flag_register(), VirtualAddress(0x1600_0018));
    assert_eq!(integrator::serial::Writer::new(VirtualAddress(0x40)).data_register(), VirtualAddress(0x40));
    assert!(integrator::serial::Writer::is_done(0));
    assert!(!integrator::serial::Writer::is_done(0x20));
}

#[test]
fn page_rounding_of_the_board() {
    assert_eq!(up(0x8001), PhysicalAddress(0x9000));
    assert_eq!(down(0x8fff), PhysicalAddress(0x8000));
}

#[test]
fn integrator_lines() {
    assert_eq!(integrator::intr::Interrupts::SOFTINT.number(), 0);
    assert_eq!(integrator::intr::Interrupts::TIMERINT1.number(), 6);
    assert_eq!(integrator::intr::Interrupts::LM_LLINT1.number(), 10);
    assert_eq!(integrator::intr::Interrupts::CLCDCINT.number(), 22);
    assert_eq!(integrator::intr::Interrupts::TS_PENINT.number(), 28);
    assert!(integrator::intr::is_wired(10));
    assert!(!integrator::intr::is_wired(11));
    assert!(integrator::intr::is_wired(22));
    assert!(!integrator::intr::is_wired(29));
}

#[test]
fn pin_functions() {
    assert_eq!(FunctionSelect::Function0.bits(), 0b100);
    assert_eq!(FunctionSelect::Function5.bits(), 0b010);
    assert_eq!(to_func_select(0b011), FunctionSelect::Function4);
    assert_eq!(to_func_select(0), FunctionSelect::Input);
    assert_eq!(pin_place(14), (1, 12));
    assert_eq!(pin_place(53), (5, 9));
    let word = update_fs(14, 0xffff_ffff, FunctionSelect::Function0);
    assert_eq!(word, 0xffff_cfff);
    assert_eq!(read_fs(14, word), FunctionSelect::Function0);
    assert_eq!(read_fs(15, word), FunctionSelect::Function3);
    assert_eq!(update_fs(22, 0, FunctionSelect::Function4), 0b011 << 6);
}

#[test]
fn system_timer_flags() {
    assert_eq!(Matches::Match1.number(), 1);
    assert_eq!(Matches::Match3.number(), 3);
    assert_eq!(matchToFlag(Matches::Match1), 2);
    assert_eq!(matchToFlag(Matches::Match3), 8);
    assert_eq!(add_to_match(10, 50_000), 50_010);
    assert_eq!(add_to_match(0xffff_fff0, 0x20), 0x10);
}

#[test]
fn rpi_lines() {
    assert_eq!(RpiInterrupts::AUX.number(), 29);
    assert_eq!(RpiInterrupts::SPI.number(), 54);
    assert_eq!(RpiInterrupts::UART.number(), 57);
    let f = split_intr(3);
    assert_eq!((f.basic, f.flags1, f.flags2), (8, 0, 0));
    let f = split_intr(57);
    assert_eq!((f.basic, f.flags1, f.flags2), (0, 0, 1 << 25));
    let g = split_intr(64);
    assert_eq!((g.basic, g.flags1, g.flags2), (0, 0, 1));
    assert!(is_interrupted(f, 0, 0, 1 << 25));
    assert!(!is_interrupted(f, 0xffff_ffff, 0xffff_ffff, !(1 << 25)));
}

#[test]
fn spi_setup_words() {
    assert_eq!(
        confiure(ClockPolarity::ResetIsLow, ClockPhase::Middle, Hz(800_000)),
        SetupWords { control_status: 0x600, clock_div: 312 }
    );
    assert_eq!(
        confiure(ClockPolarity::ResetIsHigh, ClockPhase::Begin, Hz(1_000)),
        SetupWords { control_status: 0x60c, clock_div: 250_000 & 0xffff }
    );
    assert_eq!(start_transfer(0, 1), Ok(0xb1));
    assert_eq!(start_transfer(0x603, 2), Ok(0x6b2));
    assert_eq!(start_transfer(0x603, 0), Ok(0x6b0));
    assert_eq!(start_transfer(0, 3), Err(()));
}

#[test]
fn spi_transfer_steps() {
    let mut s = TransferState::new(Transfer::new(vec![1, 2, 3], 0, 5u8));
    assert_eq!(s.step(DONE, 0), Step::Write);
    assert_eq!(s.step(DONE, RXR), Step::WriteThenExchange);
    assert_eq!(s.step(RXR, 0), Step::Exchange);
    assert_eq!(s.step(0, 0), Step::Wait);
    s.bytes_written = 3;
    assert_eq!(s.step(DONE | RXR, RXR), Step::Finish);
    let (cb, buf) = s.done();
    assert_eq!((cb, buf), (5, vec![1, 2, 3]));
}

#[test]
fn integrator_timer_words() {
    let t = Timer::new(1, VirtualAddress(0x1300_0000));
    let w = t.start_timer(50_000, true);
    assert_eq!(w[0], TimerWrite { addr: VirtualAddress(0x1300_0100), value: 50_000 });
    assert_eq!(w[1], TimerWrite { addr: VirtualAddress(0x1300_0118), value: 50_000 });
    assert_eq!(w[2], TimerWrite { addr: VirtualAddress(0x1300_0108), value: 0xe2 });
    assert_eq!(w[3], TimerWrite { addr: VirtualAddress(0x1300_010c), value: 1 });
    assert_eq!(t.start_timer(1, false)[2].value, 0xc2);
    assert_eq!(t.clear_interrupt(), w[3]);
}

#[test]
fn mode_switch_words() {
    // from interrupt mode into the supervisor mode that was interrupted
    assert_eq!(mode_switch_word(0x6000_00d2, 0x13), Some(0x6000_00d3));
    // a saved user mode is entered as system mode
    assert_eq!(mode_switch_word(0xd2, 0x10), Some(0xdf));
    assert_eq!(mode_switch_word(0xd2, 0x8000_0012), None);
}

#[test]
fn nothing_is_sent_before_the_system_is_ready() {
    let boxes = LocalMailbox::new(VirtualAddress(0x1100_0080));
    // neither the core nor the mailboxes are looked at
    assert_eq!(send_ipi(false, &boxes, 99, IPI::MEM_CHANGED), None);
}
