use armkernel::arch::arm::cpu::{
    disable_interrupts, enable_interrupts, enable_mmu, get_current_cpu_id, get_interrupts,
    set_interrupts,
};
use armkernel::arch::arm::pic::{dispatch, InterruptAttachment, InterruptSource, InterruptState, UnexpectedInterrupt, PIC};
use armkernel::arch::arm::{get_num_cpus, Driver, DriverHandle, DriverHandleEnum, DriverManager, InterruptableDriver};
use armkernel::platform::intr::{no_interrupts, InterruptGuard};
use armkernel::platform::{is_system_ready, set_system_ready, Interruptable, SystemReady};
use std::cell::Cell;
use std::rc::Rc;

#[test]
fn status_word_arithmetic() {
    assert!(get_interrupts(0x13));
    assert!(!get_interrupts(0x93));
    // the fast interrupt bit alone does not count
    assert!(get_interrupts(0x53));
    assert_eq!(disable_interrupts(0x13), 0xd3);
    assert_eq!(enable_interrupts(0xd3), 0x13);
    assert_eq!(set_interrupts(0x6000_0013, false), 0x6000_00d3);
    assert_eq!(set_interrupts(0x6000_00d3, true), 0x6000_0013);
}

#[test]
fn control_word_for_the_memory_unit() {
    assert_eq!(enable_mmu(0), 0x80_1005);
    assert_eq!(enable_mmu(0x50078), 0x85_107d);
}

#[test]
fn core_number_is_the_low_three_bits() {
    assert_eq!(get_current_cpu_id(0x8000_0f03), 3);
    assert_eq!(get_current_cpu_id(0x8000_0f00), 0);
}

#[test]
fn section_turns_interrupts_off_and_puts_them_back() {
    let mut cpsr = 0x13;
    let g = no_interrupts(&mut cpsr);
    assert!(!get_interrupts(cpsr));
    g.release(&mut cpsr);
    assert!(get_interrupts(cpsr));
    assert_eq!(cpsr, 0x13);
}

#[test]
fn nested_sections_keep_interrupts_off_until_the_outer_ends() {
    let mut cpsr = 0x13;
    let outer = no_interrupts(&mut cpsr);
    let inner = no_interrupts(&mut cpsr);
    inner.release(&mut cpsr);
    assert!(!get_interrupts(cpsr));
    outer.release(&mut cpsr);
    assert!(get_interrupts(cpsr));
}

#[test]
fn section_entered_with_interrupts_off_leaves_them_off() {
    let mut cpsr = 0xd3;
    let g = no_interrupts(&mut cpsr);
    g.release(&mut cpsr);
    assert!(!get_interrupts(cpsr));
}

#[test]
fn interrupt_guard_hands_out_its_value() {
    let mut g = InterruptGuard::new(vec![1u8]);
    let mut cpsr = 0x13;
    {
        let mut h = g.no_interrupts(&mut cpsr);
        assert_eq!(h.deref().len(), 1);
        h.deref_mut().push(9);
        assert!(h.to_state);
        h.release(&mut cpsr);
    }
    assert_eq!(cpsr, 0x13);
    let h = g.no_interrupts(&mut cpsr);
    assert_eq!(*h.deref(), vec![1, 9]);
    assert_eq!(cpsr, 0xd3);
}

#[test]
fn system_is_ready_once_it_is_said_to_be() {
    let mut f = SystemReady::new();
    assert!(!is_system_ready(&f));
    set_system_ready(&mut f);
    assert!(is_system_ready(&f));
}

#[test]
fn one_core_unless_the_board_has_more() {
    assert_eq!(get_num_cpus(false), 1);
    assert_eq!(get_num_cpus(true), 4);
}

struct Lines {
    first: usize,
    end: usize,
    pending: Rc<Cell<u64>>,
    enabled: Rc<Cell<u64>>,
}

impl InterruptSource for Lines {
    fn range(&self) -> (usize, usize) {
        (self.first, self.end)
    }
    fn enable(&self, interrupt: usize) {
        self.enabled.set(self.enabled.get() | (1 << interrupt));
    }
    fn disable(&self, interrupt: usize) {
        self.enabled.set(self.enabled.get() & !(1 << interrupt));
    }
    fn is_interrupted(&self, interrupt: usize) -> bool {
        self.pending.get() & (1 << interrupt) != 0
    }
}

fn handle(i: usize) -> DriverHandle {
    DriverHandle(DriverHandleEnum::Interruptable(i))
}

fn pic_with_two_sources() -> (PIC<Lines>, Rc<Cell<u64>>, Rc<Cell<u64>>) {
    let pending = Rc::new(Cell::new(0));
    let enabled = Rc::new(Cell::new(0));
    let mut pic: PIC<Lines> = PIC::new();
    pic.add_source(0, Lines { first: 0, end: 8, pending: pending.clone(), enabled: enabled.clone() });
    pic.add_source(0, Lines { first: 8, end: 12, pending: pending.clone(), enabled: enabled.clone() });
    (pic, pending, enabled)
}

#[test]
fn pending_interrupts_go_to_their_drivers_in_order() {
    let (mut pic, pending, _) = pic_with_two_sources();
    pic.register_callback_on_intr(0, 3, handle(0));
    pic.register_callback_on_intr(0, 9, handle(1));
    pic.register_callback_on_intr(0, 5, handle(2));
    pending.set((1 << 9) | (1 << 3));
    assert_eq!(pic.interrupted(0), Ok(vec![handle(0), handle(1)]));
    pending.set(0);
    assert_eq!(pic.interrupted(0), Ok(vec![]));
    pending.set((1 << 5) | (1 << 3) | (1 << 9));
    assert_eq!(pic.interrupted(0), Ok(vec![handle(0), handle(2), handle(1)]));
}

#[test]
fn pending_interrupt_without_a_driver_is_fatal() {
    let (mut pic, pending, _) = pic_with_two_sources();
    pic.register_callback_on_intr(0, 3, handle(0));
    pending.set((1 << 3) | (1 << 4) | (1 << 10));
    assert_eq!(pic.interrupted(0), Err(UnexpectedInterrupt(4)));
}

#[test]
fn enable_registered_switches_on_what_has_a_driver() {
    let (mut pic, _, enabled) = pic_with_two_sources();
    pic.register_callback_on_intr(0, 2, handle(0));
    let _a = InterruptAttachment::new(&mut pic, 0, 11, handle(1));
    pic.enable_registered(0);
    assert_eq!(enabled.get(), (1 << 2) | (1 << 11));
}

#[test]
fn enable_interrupt_finds_the_source() {
    let (mut pic, _, enabled) = pic_with_two_sources();
    assert_eq!(pic.enable_interrupt(0, 9), Some(1));
    assert_eq!(pic.enable_interrupt(0, 0), Some(0));
    assert_eq!(pic.enable_interrupt(0, 12), None);
    assert_eq!(enabled.get(), (1 << 9) | 1);
    assert_eq!(pic.source_of(7), Some(0));
    assert_eq!(pic.source_of(8), Some(1));
}

#[test]
fn dispatch_on_given_numbers() {
    let mut table = vec![InterruptState::new(); 4];
    table[1].driver_handle = Some(handle(7));
    table[3].driver_handle = Some(handle(8));
    assert_eq!(dispatch(&table, &vec![3, 1, 3]), Ok(vec![handle(8), handle(7), handle(8)]));
    assert_eq!(dispatch(&table, &vec![1, 2, 0]), Err(UnexpectedInterrupt(2)));
    // a number past the table has no driver either
    assert_eq!(dispatch(&table, &vec![1, 4]), Err(UnexpectedInterrupt(4)));
    assert_eq!(dispatch(&table, &vec![]), Ok(vec![]));
}

struct Dev {
    attached: Option<DriverHandle>,
    hits: Rc<Cell<u32>>,
}

impl Driver for Dev {
    fn attach(&mut self, d: DriverHandle) {
        self.attached = Some(d);
    }
}

impl Interruptable for Dev {
    fn interrupted(&self) {
        self.hits.set(self.hits.get() + 1);
    }
}

impl InterruptableDriver for Dev {}

#[test]
fn driver_manager_names_drivers_by_kind_and_place() {
    let hits = Rc::new(Cell::new(0));
    let mut dm: DriverManager<Dev, Dev> = DriverManager::new();
    let a = dm.add_driver(Dev { attached: None, hits: hits.clone() });
    let b = dm.add_driver_interruptable(Dev { attached: None, hits: hits.clone() });
    let c = dm.add_driver_interruptable(Dev { attached: None, hits: hits.clone() });
    assert_eq!(a, DriverHandle(DriverHandleEnum::Regular(0)));
    assert_eq!(b, DriverHandle(DriverHandleEnum::Interruptable(0)));
    assert_eq!(c, DriverHandle(DriverHandleEnum::Interruptable(1)));
    dm.attach_all();
    dm.driver_interrupted(c);
    dm.driver_interrupted(b);
    dm.driver_interrupted(c);
    assert_eq!(hits.get(), 3);
}

struct Noting {
    told: Rc<Cell<Option<DriverHandle>>>,
}

impl Driver for Noting {
    fn attach(&mut self, d: DriverHandle) {
        self.told.set(Some(d));
    }
}

impl Interruptable for Noting {
    fn interrupted(&self) {}
}

impl InterruptableDriver for Noting {}

#[test]
fn attach_all_tells_every_driver_its_own_handle() {
    let cells: Vec<Rc<Cell<Option<DriverHandle>>>> = (0..5).map(|_| Rc::new(Cell::new(None))).collect();
    let mut dm: DriverManager<Noting, Noting> = DriverManager::new();
    dm.add_driver(Noting { told: cells[0].clone() });
    dm.add_driver(Noting { told: cells[1].clone() });
    dm.add_driver_interruptable(Noting { told: cells[2].clone() });
    dm.add_driver_interruptable(Noting { told: cells[3].clone() });
    dm.add_driver_interruptable(Noting { told: cells[4].clone() });
    assert!(cells.iter().all(|c| c.get().is_none()));
    dm.attach_all();
    assert_eq!(cells[0].get(), Some(DriverHandle(DriverHandleEnum::Regular(0))));
    assert_eq!(cells[1].get(), Some(DriverHandle(DriverHandleEnum::Regular(1))));
    assert_eq!(cells[2].get(), Some(handle(0)));
    assert_eq!(cells[3].get(), Some(handle(1)));
    assert_eq!(cells[4].get(), Some(handle(2)));
    assert_eq!(dm.interruptable_len(), 3);
}
