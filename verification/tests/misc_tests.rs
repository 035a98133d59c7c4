use armkernel::arch::arm::thread::{new_thread, FRAME_WORDS};
use armkernel::device::serial::line_bytes;
use armkernel::device::spi::{ClockPhase, ClockPolarity, Configuration, Hz, Transfer};
use armkernel::drivers::{drive_leds, LED};
use armkernel::io::{read_fifo, write_fifo, BusyWaitWriter, Error, Read, ReadFifo, Write, WriteFifo};
use armkernel::mem::VirtualAddress;
use armkernel::platform::ThreadId;
use armkernel::thread::{RunState, Thread};

#[test]
fn new_thread_frame_returns_into_the_entry() {
    let (ctx, stores) = new_thread(VirtualAddress(0x10_4000), 0x8_0123);
    assert_eq!(ctx.stack_pointer(), 0x10_4000 - 40);
    assert_eq!(stores.len(), FRAME_WORDS);
    assert_eq!(stores[0].addr, VirtualAddress(0x10_3ffc));
    assert_eq!(stores[0].value, 0x8_0123);
    for i in 1..10 {
        assert_eq!(stores[i].addr, VirtualAddress(0x10_4000 - 4 * (i + 1)));
        assert_eq!(stores[i].value, 0);
    }
    // the lowest store is where the stack pointer points
    assert_eq!(stores[9].addr.0 as u32, ctx.stack_pointer());
}

#[test]
fn running_stack_needs_no_frame() {
    let (ctx, stores) = new_thread(VirtualAddress(0), 0x8_0123);
    assert_eq!(ctx.stack_pointer(), 0);
    assert!(stores.is_empty());
}

#[test]
fn stacks_follow_one_another() {
    let mut counter = 0;
    let (s0, e0) = Thread::<u32>::allocate_stack(&mut counter);
    let (s1, e1) = Thread::<u32>::allocate_stack(&mut counter);
    assert_eq!((s0.0, e0.0), (0x100_0000, 0x100_4000));
    assert_eq!((s1.0, e1.0), (0x100_4000, 0x100_8000));
    assert_eq!(counter, 0x8000);
}

#[test]
fn new_threads_are_ready_with_priority_one() {
    let (ctx, _) = new_thread(VirtualAddress(0x4000), 0);
    let t: Thread<u8> = Thread::new(ThreadId(5), 9, ctx);
    assert!(t.is_ready());
    assert_eq!(t.priority, 1);
    assert_eq!(t.cpu_affinity, None);
    assert_eq!(t.func, Some(9));
    let mut c: Thread<u8> = Thread::new_cur_thread(ThreadId(6));
    assert!(c.is_ready());
    assert_eq!(c.func, None);
    assert_eq!(c.ctx.stack_pointer(), 0);
    c.run_state = RunState::WakeOn(3);
    assert!(!c.is_ready());
    c.run_state = RunState::Blocked;
    assert!(!c.is_ready());
}

#[test]
fn led_frame() {
    assert_eq!(drive_leds(&vec![]), vec![0, 0, 0, 0]);
    let leds = vec![
        LED { red: 0xff, green: 0, blue: 0 },
        LED { red: 0, green: 0xff, blue: 0 },
        LED { red: 1, green: 3, blue: 2 },
    ];
    assert_eq!(
        drive_leds(&leds),
        vec![0, 0, 0, 0, 0xff, 0xff, 0, 0, 0xff, 0, 0, 0xff, 0xff, 1, 2, 3, 0]
    );
    let many = vec![LED { red: 1, green: 1, blue: 1 }; 17];
    assert_eq!(drive_leds(&many).len(), 4 + 68 + 2);
}

struct Fifo {
    room: usize,
    data: Vec<u8>,
}

impl WriteFifo for Fifo {
    fn can_write(&self) -> bool {
        self.data.len() < self.room
    }
    fn write_one(&mut self, b: u8) {
        self.data.push(b);
    }
}

impl ReadFifo for Fifo {
    fn can_read(&self) -> bool {
        !self.data.is_empty()
    }
    fn read_one(&mut self) -> u8 {
        self.data.remove(0)
    }
}

#[test]
fn writing_stops_when_the_device_is_full() {
    let mut f = Fifo { room: 3, data: vec![] };
    assert_eq!(write_fifo(&mut f, &vec![]), Ok(0));
    assert_eq!(write_fifo(&mut f, &vec![1, 2]), Ok(2));
    assert_eq!(Write::write(&mut f, &vec![3, 4, 5]), Ok(1));
    assert_eq!(f.data, vec![1, 2, 3]);
    assert_eq!(write_fifo(&mut f, &vec![6]), Err(Error::FifoFull));
    assert_eq!(write_fifo(&mut f, &vec![]), Ok(0));
}

#[test]
fn reading_stops_when_the_device_is_empty() {
    let mut f = Fifo { room: 8, data: vec![7, 8, 9] };
    let mut buf = vec![0u8; 2];
    assert_eq!(read_fifo(&mut f, &mut buf), Ok(2));
    assert_eq!(buf, vec![7, 8]);
    let mut buf = vec![1u8; 4];
    assert_eq!(Read::read(&mut f, &mut buf), Ok(1));
    assert_eq!(buf, vec![9, 1, 1, 1]);
    assert_eq!(read_fifo(&mut f, &mut buf), Err(Error::FifoEmpty));
    assert_eq!(read_fifo(&mut f, &mut vec![]), Ok(0));
}

#[test]
fn busy_wait_writer_holds_its_device() {
    let w = BusyWaitWriter::new(Fifo { room: 1, data: vec![4] });
    let f = w.into_inner();
    assert_eq!(f.room, 1);
    assert_eq!(f.data, vec![4]);
}

#[test]
fn line_ends_with_a_line_feed() {
    assert_eq!(line_bytes(&b"t1 started".to_vec()), b"t1 started\n".to_vec());
    assert_eq!(line_bytes(&vec![]), vec![10]);
}

#[test]
fn transfer_hands_back_its_bytes() {
    let t = Transfer::new(vec![1, 2, 3], 1, 42u32);
    assert_eq!(t.slave, 1);
    let (cb, buf) = t.done();
    assert_eq!(cb, 42);
    assert_eq!(buf, vec![1, 2, 3]);
    let c = Configuration {
        clock_polarity: Some(ClockPolarity::ResetIsLow),
        clock_phase: Some(ClockPhase::Middle),
        speed: Some(Hz(800_000)),
    };
    assert_eq!(c.speed, Some(Hz(800_000)));
}
