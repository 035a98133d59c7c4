//! ARM: status-register arithmetic, the saved context of a thread, the
//! interrupt dispatcher and the drivers it dispatches to.

pub mod board;
pub mod cpu;
pub mod mem;
pub mod pic;
pub mod thread;
pub mod vector;

use vstd::prelude::*;
use crate::platform::Interruptable;

verus! {

/// The number of cores of a board with more than one.
pub const NUM_CPUS: usize = 4;

/// The number of cores to bring up.
pub fn get_num_cpus(multicpu: bool) -> (n: usize)
    ensures
        n == (if multicpu {
            NUM_CPUS
        } else {
            1
        }),
{
    if multicpu {
        NUM_CPUS
    } else {
        1
    }
}

/// A driver; it is told its handle when the drivers are attached.
pub trait Driver {
    fn attach(&mut self, d: DriverHandle);
}

#[derive(Clone, Copy, PartialEq, Eq, Structural, Debug)]
pub enum DriverHandleEnum {
    Regular(usize),
    Interruptable(usize),
}

/// The name of a driver: its kind, and its place among the drivers of that
/// kind.
#[derive(Clone, Copy, PartialEq, Eq, Structural, Debug)]
pub struct DriverHandle(pub DriverHandleEnum);

/// A driver that handles interrupts.
pub trait InterruptableDriver: Driver + Interruptable {

}

/// The handle of the driver at place `i` among those that take no
/// interrupts.
pub open spec fn regular_handle(i: int) -> DriverHandle {
    DriverHandle(DriverHandleEnum::Regular(i as usize))
}

/// The handle of the driver at place `i` among those that take interrupts.
pub open spec fn interruptable_handle(i: int) -> DriverHandle {
    DriverHandle(DriverHandleEnum::Interruptable(i as usize))
}

pub struct DriverManager<D: Driver, I: InterruptableDriver> {
    drivers: Vec<D>,
    interruptable: Vec<I>,
}

impl<D: Driver, I: InterruptableDriver> DriverManager<D, I> {
    /// The number of drivers that take no interrupts.
    pub open spec fn regular_count(&self) -> nat {
        self.drivers().len()
    }

    /// The number of drivers that take interrupts.
    pub open spec fn interruptable_count(&self) -> nat {
        self.interruptables().len()
    }

    /// The drivers that take no interrupts, in the order of their handles.
    pub closed spec fn drivers(&self) -> Seq<D> {
        self.drivers@
    }

    /// The drivers that take interrupts, in the order of their handles.
    pub closed spec fn interruptables(&self) -> Seq<I> {
        self.interruptable@
    }

    /// `dh` names a driver of this manager that takes interrupts.
    pub open spec fn can_interrupt(&self, dh: DriverHandle) -> bool {
        dh.0 matches DriverHandleEnum::Interruptable(idx) && idx < self.interruptable_count()
    }

    pub fn new() -> (m: Self)
        ensures
            m.regular_count() == 0,
            m.interruptable_count() == 0,
    {
        DriverManager { drivers: Vec::new(), interruptable: Vec::new() }
    }

    /// The number of drivers that take interrupts.
    pub fn interruptable_len(&self) -> (n: usize)
        ensures
            n == self.interruptable_count(),
    {
        self.interruptable.len()
    }

    /// Tells every driver its handle: the driver at place `i` of its kind is
    /// attached with the handle of that kind and place, and is left as its
    /// `attach` leaves it.
    pub fn attach_all(&mut self)
        ensures
            final(self).regular_count() == old(self).regular_count(),
            final(self).interruptable_count() == old(self).interruptable_count(),
            forall|j: int|
                0 <= j < old(self).regular_count() ==> exists|r: &mut D|
                    mut_ref_current(r) == old(self).drivers()[j] && mut_ref_future(r) == final(self).drivers()[j] && #[trigger] call_ensures(
                        D::attach,
                        (r, #[trigger] regular_handle(j)),
                        (),
                    ),
            forall|j: int|
                0 <= j < old(self).interruptable_count() ==> exists|r: &mut I|
                    mut_ref_current(r) == old(self).interruptables()[j] && mut_ref_future(r)
                        == final(self).interruptables()[j] && #[trigger] call_ensures(
                        I::attach,
                        (r, #[trigger] interruptable_handle(j)),
                        (),
                    ),
    {
        let mut i: usize = 0;
        while i < self.drivers.len()
            invariant
                i <= self.drivers@.len(),
                self.drivers@.len() == old(self).drivers@.len(),
                self.interruptable@ == old(self).interruptable@,
                forall|j: int|
                    0 <= j < i ==> exists|r: &mut D|
                        mut_ref_current(r) == old(self).drivers@[j] && mut_ref_future(r)
                            == self.drivers@[j] && #[trigger] call_ensures(
                            D::attach,
                            (r, #[trigger] regular_handle(j)),
                            (),
                        ),
                forall|j: int|
                    i <= j < self.drivers@.len() ==> self.drivers@[j] == old(self).drivers@[j],
            decreases self.drivers@.len() - i,
        {
            self.drivers[i].attach(DriverHandle(DriverHandleEnum::Regular(i)));
            i = i + 1;
        }
        let mut j: usize = 0;
        while j < self.interruptable.len()
            invariant
                j <= self.interruptable@.len(),
                self.interruptable@.len() == old(self).interruptable@.len(),
                self.drivers@.len() == old(self).drivers@.len(),
                forall|k: int|
                    0 <= k < self.drivers@.len() ==> exists|r: &mut D|
                        mut_ref_current(r) == old(self).drivers@[k] && mut_ref_future(r)
                            == self.drivers@[k] && #[trigger] call_ensures(
                            D::attach,
                            (r, #[trigger] regular_handle(k)),
                            (),
                        ),
                forall|k: int|
                    0 <= k < j ==> exists|r: &mut I|
                        mut_ref_current(r) == old(self).interruptable@[k] && mut_ref_future(r)
                            == self.interruptable@[k] && #[trigger] call_ensures(
                            I::attach,
                            (r, #[trigger] interruptable_handle(k)),
                            (),
                        ),
                forall|k: int|
                    j <= k < self.interruptable@.len() ==> self.interruptable@[k] == old(self).interruptable@[k],
            decreases self.interruptable@.len() - j,
        {
            self.interruptable[j].attach(DriverHandle(DriverHandleEnum::Interruptable(j)));
            j = j + 1;
        }
    }

    /// Adds a driver that takes no interrupts; its handle is its place.
    pub fn add_driver(&mut self, d: D) -> (dh: DriverHandle)
        ensures
            dh == DriverHandle(DriverHandleEnum::Regular(old(self).regular_count() as usize)),
            final(self).regular_count() == old(self).regular_count() + 1,
            final(self).interruptable_count() == old(self).interruptable_count(),
    {
        let dh = DriverHandle(DriverHandleEnum::Regular(self.drivers.len()));
        self.drivers.push(d);
        dh
    }

    /// Adds a driver that takes interrupts; its handle is its place.
    pub fn add_driver_interruptable(&mut self, d: I) -> (dh: DriverHandle)
        ensures
            dh == DriverHandle(
                DriverHandleEnum::Interruptable(old(self).interruptable_count() as usize),
            ),
            final(self).can_interrupt(dh),
            final(self).regular_count() == old(self).regular_count(),
            final(self).interruptable_count() == old(self).interruptable_count() + 1,
    {
        let dh = DriverHandle(DriverHandleEnum::Interruptable(self.interruptable.len()));
        self.interruptable.push(d);
        dh
    }

    /// Runs the interrupt handler of the driver that `dh` names: the driver
    /// at the place of the handle, among those that take interrupts, is
    /// interrupted.
    pub fn driver_interrupted(&self, dh: DriverHandle)
        requires
            self.can_interrupt(dh),
        ensures
            dh.0 matches DriverHandleEnum::Interruptable(idx) && call_ensures(
                I::interrupted,
                (&self.interruptables()[idx as int],),
                (),
            ),
    {
        if let DriverHandleEnum::Interruptable(idx) = dh.0 {
            self.interruptable[idx].interrupted();
        }
    }
}

} // verus!
