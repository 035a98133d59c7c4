//! Byte streams over devices that take or give one byte at a time.

use vstd::prelude::*;

verus! {

#[derive(Copy, Clone, PartialEq, Eq, Structural, Debug)]
pub enum Error {
    FifoFull,
    FifoEmpty,
}

pub trait Read {
    fn read(&mut self, buf: &mut Vec<u8>) -> core::result::Result<usize, Error>;
}

pub trait Write {
    fn write(&mut self, buf: &Vec<u8>) -> core::result::Result<usize, Error>;
}

/// A device that bytes can be taken from while it has some.
pub trait ReadFifo {
    fn can_read(&self) -> bool;

    fn read_one(&mut self) -> u8;
}

/// A device that bytes can be given to while it has room.
pub trait WriteFifo {
    fn can_write(&self) -> bool;

    fn write_one(&mut self, b: u8);
}

/// Gives the device the bytes of `buf`, from the front, for as long as it
/// has room, and says how many it took.
///
/// Nothing is asked of the device for an empty `buf`.  Otherwise the device
/// is asked whether it has room.  Without room for the first byte it is left
/// alone, and the result is an error.  With room it is given the first
/// byte, and then the next for as long as it says after a byte that it has
/// room for another.  The result is the number of bytes it was given; where
/// that is not all of them, the device has said at the end that it has no
/// room.
pub fn write_fifo<T: WriteFifo>(dev: &mut T, buf: &Vec<u8>) -> (r: core::result::Result<usize, Error>)
    ensures
        buf@.len() == 0 ==> r == Ok::<usize, Error>(0) && *final(dev) == *old(dev),
        r matches Err(e) ==> e == Error::FifoFull && buf@.len() > 0 && *final(dev) == *old(dev)
            && call_ensures(T::can_write, (&*old(dev),), false),
        r matches Ok(n) ==> n <= buf@.len() && (buf@.len() > 0 ==> n >= 1 && call_ensures(
            T::can_write,
            (&*old(dev),),
            true,
        )) && (n < buf@.len() ==> call_ensures(T::can_write, (&*final(dev),), false)),
        r is Ok && buf@.len() > 0 ==> exists|m: &mut T|
            mut_ref_current(m) == *old(dev) && #[trigger] call_ensures(
                T::write_one,
                (m, buf@[0]),
                (),
            ) && (r == Ok::<usize, Error>(1) ==> mut_ref_future(m) == *final(dev)),
{
    if buf.len() == 0 {
        return Ok(0);
    }
    if !dev.can_write() {
        return Err(Error::FifoFull);
    }
    let ghost mut after_first: T = *dev;
    let mut i: usize = 0;
    while i < buf.len()
        invariant
            i <= buf@.len(),
            buf@.len() > 0,
            call_ensures(T::can_write, (&*old(dev),), true),
            call_ensures(T::can_write, (&*dev,), true),
            i == 0 ==> *dev == *old(dev),
            i == 1 ==> *dev == after_first,
            i > 0 ==> exists|m: &mut T|
                mut_ref_current(m) == *old(dev) && mut_ref_future(m) == after_first
                    && #[trigger] call_ensures(T::write_one, (m, buf@[0]), ()),
        decreases buf@.len() - i,
    {
        dev.write_one(buf[i]);
        proof {
            if i == 0 {
                after_first = *dev;
            }
        }
        if !dev.can_write() {
            return Ok(i + 1);
        }
        i = i + 1;
    }
    Ok(buf.len())
}

/// Fills `buf` from the front with bytes of the device for as long as it
/// has some, and says how many it gave.
///
/// Nothing is asked of the device for an empty `buf`.  Otherwise the device
/// is asked whether it has a byte.  Without one it is left alone, and the
/// result is an error.  With one, the byte goes to the first place of `buf`,
/// and the next to the next place for as long as the device says after a
/// byte that it has another.  The result is the number of bytes it gave;
/// where that is less than `buf` holds, the device has said at the end that
/// it has no more, and the rest of `buf` is as it was.
pub fn read_fifo<T: ReadFifo>(dev: &mut T, buf: &mut Vec<u8>) -> (r: core::result::Result<usize, Error>)
    ensures
        final(buf)@.len() == old(buf)@.len(),
        old(buf)@.len() == 0 ==> r == Ok::<usize, Error>(0) && *final(dev) == *old(dev),
        r matches Err(e) ==> e == Error::FifoEmpty && old(buf)@.len() > 0 && final(buf)@ == old(buf)@ && *final(dev) == *old(dev) && call_ensures(T::can_read, (&*old(dev),), false),
        r matches Ok(n) ==> n <= old(buf)@.len() && (old(buf)@.len() > 0 ==> n >= 1
            && call_ensures(T::can_read, (&*old(dev),), true)) && (n < old(buf)@.len()
            ==> call_ensures(T::can_read, (&*final(dev),), false)) && forall|i: int|
            n <= i < old(buf)@.len() ==> final(buf)@[i] == old(buf)@[i],
        r is Ok && old(buf)@.len() > 0 ==> exists|m: &mut T|
            mut_ref_current(m) == *old(dev) && #[trigger] call_ensures(
                T::read_one,
                (m,),
                final(buf)@[0],
            ) && (r == Ok::<usize, Error>(1) ==> mut_ref_future(m) == *final(dev)),
{
    if buf.len() == 0 {
        return Ok(0);
    }
    if !dev.can_read() {
        return Err(Error::FifoEmpty);
    }
    let ghost mut after_first: T = *dev;
    let mut i: usize = 0;
    while i < buf.len()
        invariant
            i <= buf@.len(),
            buf@.len() > 0,
            buf@.len() == old(buf)@.len(),
            forall|j: int| i <= j < buf@.len() ==> buf@[j] == old(buf)@[j],
            call_ensures(T::can_read, (&*old(dev),), true),
            call_ensures(T::can_read, (&*dev,), true),
            i == 0 ==> *dev == *old(dev),
            i == 1 ==> *dev == after_first,
            i > 0 ==> exists|m: &mut T|
                mut_ref_current(m) == *old(dev) && mut_ref_future(m) == after_first
                    && #[trigger] call_ensures(T::read_one, (m,), buf@[0]),
        decreases buf@.len() - i,
    {
        let ghost filled = buf@;
        let b = dev.read_one();
        proof {
            if i == 0 {
                after_first = *dev;
            }
        }
        buf[i] = b;
        proof {
            if i == 0 {
                assert(buf@[0] == b);
            } else {
                assert(buf@[0] == filled[0]);
            }
            assert(exists|m: &mut T|
                mut_ref_current(m) == *old(dev) && mut_ref_future(m) == after_first
                    && #[trigger] call_ensures(T::read_one, (m,), buf@[0]));
        }
        if !dev.can_read() {
            return Ok(i + 1);
        }
        i = i + 1;
    }
    Ok(buf.len())
}

impl<T: WriteFifo> Write for T {
    /// Writing to a device that takes a byte at a time is [`write_fifo`]:
    /// the device is given the bytes of `buf`, from the front, for as long
    /// as it has room.
    fn write(&mut self, buf: &Vec<u8>) -> (r: core::result::Result<usize, Error>)
        ensures
            buf@.len() == 0 ==> r == Ok::<usize, Error>(0) && *final(self) == *old(self),
            r matches Err(e) ==> e == Error::FifoFull && buf@.len() > 0 && *final(self) == *old(self) && call_ensures(T::can_write, (&*old(self),), false),
            r matches Ok(n) ==> n <= buf@.len() && (buf@.len() > 0 ==> n >= 1 && call_ensures(
                T::can_write,
                (&*old(self),),
                true,
            )) && (n < buf@.len() ==> call_ensures(T::can_write, (&*final(self),), false)),
            r is Ok && buf@.len() > 0 ==> exists|m: &mut T|
                mut_ref_current(m) == *old(self) && #[trigger] call_ensures(
                    T::write_one,
                    (m, buf@[0]),
                    (),
                ) && (r == Ok::<usize, Error>(1) ==> mut_ref_future(m) == *final(self)),
    {
        write_fifo(self, buf)
    }
}

impl<T: ReadFifo> Read for T {
    /// Reading from a device that gives a byte at a time is [`read_fifo`]:
    /// `buf` is filled from the front with bytes of the device for as long
    /// as it has some.
    fn read(&mut self, buf: &mut Vec<u8>) -> (r: core::result::Result<usize, Error>)
        ensures
            final(buf)@.len() == old(buf)@.len(),
            old(buf)@.len() == 0 ==> r == Ok::<usize, Error>(0) && *final(self) == *old(self),
            r matches Err(e) ==> e == Error::FifoEmpty && old(buf)@.len() > 0 && final(buf)@
                == old(buf)@ && *final(self) == *old(self) && call_ensures(
                T::can_read,
                (&*old(self),),
                false,
            ),
            r matches Ok(n) ==> n <= old(buf)@.len() && (old(buf)@.len() > 0 ==> n >= 1
                && call_ensures(T::can_read, (&*old(self),), true)) && (n < old(buf)@.len()
                ==> call_ensures(T::can_read, (&*final(self),), false)) && forall|i: int|
                n <= i < old(buf)@.len() ==> final(buf)@[i] == old(buf)@[i],
            r is Ok && old(buf)@.len() > 0 ==> exists|m: &mut T|
                mut_ref_current(m) == *old(self) && #[trigger] call_ensures(
                    T::read_one,
                    (m,),
                    final(buf)@[0],
                ) && (r == Ok::<usize, Error>(1) ==> mut_ref_future(m) == *final(self)),
    {
        read_fifo(self, buf)
    }
}

/// A device to write to by waiting for room rather than giving up.  The
/// waiting is the caller's: it asks the device until it has room.
pub struct BusyWaitWriter<T> {
    writer: T,
}

impl<T: WriteFifo> BusyWaitWriter<T> {
    pub closed spec fn writer(&self) -> T {
        self.writer
    }

    pub fn new(x: T) -> (w: Self)
        ensures
            w.writer() == x,
    {
        BusyWaitWriter { writer: x }
    }

    /// The device, given back.
    pub fn into_inner(self) -> (x: T)
        ensures
            x == self.writer(),
    {
        self.writer
    }
}

} // verus!
