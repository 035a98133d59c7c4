//! Sizes and addresses, and what the memory manager is asked for.

use vstd::prelude::*;

verus! {

pub const PAGE_SHIFT: usize = 12;

pub const PAGE_SIZE: usize = 4096;

pub const PAGE_MASK: usize = 4095;

#[derive(Copy, Clone, Debug)]
pub enum MemorySize {
    Bytes(usize),
    KiloBytes(usize),
    MegaBytes(usize),
    GigaBytes(usize),
    PageSizes(usize),
}

/// The bytes in `x`, as far as a machine word holds them: the count is
/// shifted, and what leaves the word at the top is lost.
pub open spec fn spec_to_bytes(x: MemorySize) -> usize {
    match x {
        MemorySize::Bytes(b) => b,
        MemorySize::KiloBytes(k) => k << 10,
        MemorySize::MegaBytes(m) => m << 20,
        MemorySize::GigaBytes(g) => g << 30,
        MemorySize::PageSizes(p) => p << 12,
    }
}

/// The factor by which the unit of `x` is larger than a byte.
pub open spec fn unit_bytes(x: MemorySize) -> int {
    match x {
        MemorySize::Bytes(_) => 1,
        MemorySize::KiloBytes(_) => 0x400,
        MemorySize::MegaBytes(_) => 0x10_0000,
        MemorySize::GigaBytes(_) => 0x4000_0000,
        MemorySize::PageSizes(_) => 0x1000,
    }
}

/// The number of units in `x`.
pub open spec fn unit_count(x: MemorySize) -> usize {
    match x {
        MemorySize::Bytes(n) => n,
        MemorySize::KiloBytes(n) => n,
        MemorySize::MegaBytes(n) => n,
        MemorySize::GigaBytes(n) => n,
        MemorySize::PageSizes(n) => n,
    }
}

pub fn to_bytes(x: MemorySize) -> (b: usize)
    ensures
        b == spec_to_bytes(x),
        unit_count(x) * unit_bytes(x) <= u32::MAX ==> b == unit_count(x) * unit_bytes(x),
{
    proof {
        lemma_shift_is_product(unit_count(x));
    }
    match x {
        MemorySize::Bytes(b) => b,
        MemorySize::KiloBytes(k) => k << 10,
        MemorySize::MegaBytes(m) => m << 20,
        MemorySize::GigaBytes(g) => g << 30,
        MemorySize::PageSizes(p) => p << PAGE_SHIFT,
    }
}

/// A count that fits shifts as it multiplies.
proof fn lemma_shift_is_product(n: usize)
    ensures
        n * 0x400 <= u32::MAX ==> n << 10 == n * 0x400,
        n * 0x1000 <= u32::MAX ==> n << 12 == n * 0x1000,
        n * 0x10_0000 <= u32::MAX ==> n << 20 == n * 0x10_0000,
        n * 0x4000_0000 <= u32::MAX ==> n << 30 == n * 0x4000_0000,
{
    if n <= 0x3f_ffff {
        assert(n << 10 == n * 0x400) by (bit_vector)
            requires
                n <= 0x3f_ffff,
        ;
    }
    if n <= 0xf_ffff {
        assert(n << 12 == n * 0x1000) by (bit_vector)
            requires
                n <= 0xf_ffff,
        ;
    }
    if n <= 0xfff {
        assert(n << 20 == n * 0x10_0000) by (bit_vector)
            requires
                n <= 0xfff,
        ;
    }
    if n <= 3 {
        assert(n << 30 == n * 0x4000_0000) by (bit_vector)
            requires
                n <= 3,
        ;
    }
}

/// The pages in `x`, where its bytes are a whole number of pages.
pub fn to_pages(x: MemorySize) -> (r: Result<usize, ()>)
    ensures
        r is Ok <==> spec_to_bytes(x) % 4096 == 0,
        r matches Ok(pages) ==> pages == spec_to_bytes(x) / 4096,
{
    let b = to_bytes(x);
    assert(b & 4095 == b % 4096 && b >> 12 == b / 4096) by (bit_vector);
    if (b & PAGE_MASK) != 0 {
        Err(())
    } else {
        Ok(b >> PAGE_SHIFT)
    }
}

/// The size of a negative offset.
fn magnitude(off: isize) -> (m: usize)
    requires
        off < 0,
    ensures
        m == -off,
{
    if off == isize::MIN {
        (isize::MAX as usize) + 1
    } else {
        (-off) as usize
    }
}

#[derive(Copy, Clone, PartialEq, Eq, PartialOrd, Ord, Structural, Hash, Debug)]
pub struct VirtualAddress(pub usize);

#[derive(Copy, Clone, PartialEq, Eq, PartialOrd, Ord, Structural, Hash, Debug)]
pub struct PhysicalAddress(pub usize);

impl VirtualAddress {
    /// The address `off` bytes further on, or back where `off` is negative.
    pub fn offset(&self, off: isize) -> (r: VirtualAddress)
        requires
            0 <= self.0 + off <= usize::MAX,
        ensures
            r.0 == self.0 + off,
    {
        if off >= 0 {
            VirtualAddress(self.0 + (off as usize))
        } else {
            VirtualAddress(self.0 - magnitude(off))
        }
    }

    pub fn uoffset(&self, off: usize) -> (r: VirtualAddress)
        requires
            self.0 + off <= usize::MAX,
        ensures
            r.0 == self.0 + off,
    {
        VirtualAddress(self.0 + off)
    }

}

/// The distance from one address up to another.
impl core::ops::Sub for VirtualAddress {
    type Output = MemorySize;

    fn sub(self, rhs: VirtualAddress) -> (d: MemorySize) {
        MemorySize::Bytes(self.0 - rhs.0)
    }
}

impl vstd::std_specs::ops::SubSpecImpl for VirtualAddress {
    open spec fn obeys_sub_spec() -> bool {
        true
    }

    open spec fn sub_req(self, rhs: VirtualAddress) -> bool {
        rhs.0 <= self.0
    }

    open spec fn sub_spec(self, rhs: VirtualAddress) -> MemorySize {
        MemorySize::Bytes((self.0 - rhs.0) as usize)
    }
}

impl PhysicalAddress {
    /// The address `off` bytes further on, or back where `off` is negative.
    pub fn offset(&self, off: isize) -> (r: PhysicalAddress)
        requires
            0 <= self.0 + off <= usize::MAX,
        ensures
            r.0 == self.0 + off,
    {
        if off >= 0 {
            PhysicalAddress(self.0 + (off as usize))
        } else {
            PhysicalAddress(self.0 - magnitude(off))
        }
    }

    pub fn uoffset(&self, off: usize) -> (r: PhysicalAddress)
        requires
            self.0 + off <= usize::MAX,
        ensures
            r.0 == self.0 + off,
    {
        PhysicalAddress(self.0 + off)
    }

}

/// The distance from one address up to another.
impl core::ops::Sub for PhysicalAddress {
    type Output = MemorySize;

    fn sub(self, rhs: PhysicalAddress) -> (d: MemorySize) {
        MemorySize::Bytes(self.0 - rhs.0)
    }
}

impl vstd::std_specs::ops::SubSpecImpl for PhysicalAddress {
    open spec fn obeys_sub_spec() -> bool {
        true
    }

    open spec fn sub_req(self, rhs: PhysicalAddress) -> bool {
        rhs.0 <= self.0
    }

    open spec fn sub_spec(self, rhs: PhysicalAddress) -> MemorySize {
        MemorySize::Bytes((self.0 - rhs.0) as usize)
    }
}

/// Hands out physical memory by the frame.
pub trait FrameAllocator {
    fn allocate(&mut self, num_frames: usize) -> Option<PhysicalAddress>;

    fn deallocate(&mut self, start: PhysicalAddress, num_frames: usize);
}

/// Translates between the two kinds of address.
pub trait PVMapper {
    fn v2p(&self, v: VirtualAddress) -> Option<PhysicalAddress>;

    fn p2v(&self, p: PhysicalAddress) -> Option<VirtualAddress>;
}

/// Changes the translation, taking frames for its tables from an allocator.
pub trait MemoryMapper<A: FrameAllocator>: PVMapper {
    fn map(&mut self, fa: &mut A, p: PhysicalAddress, v: VirtualAddress, size: MemorySize) -> Result<
        (),
        (),
    >;

    fn unmap(&mut self, fa: &mut A, v: VirtualAddress, size: MemorySize) -> Result<(), ()>;

    fn map_device(
        &mut self,
        fa: &mut A,
        p: PhysicalAddress,
        v: VirtualAddress,
        size: MemorySize,
    ) -> Result<(), ()>;
}

/// Changes the translation with an allocator of its own.
pub trait MemoryManagaer: PVMapper {
    fn map(&mut self, p: PhysicalAddress, v: VirtualAddress, size: MemorySize) -> Result<(), ()>;

    fn unmap(&mut self, v: VirtualAddress, size: MemorySize) -> Result<(), ()>;

    fn map_device(&mut self, p: PhysicalAddress, v: VirtualAddress, size: MemorySize) -> Result<
        (),
        (),
    >;
}

/// A mapper together with the allocator that it draws on.
pub struct DefaultMemoryManagaer<A: FrameAllocator, M: MemoryMapper<A>> {
    frame_allocator: A,
    mem_mapper: M,
}

impl<A: FrameAllocator, M: MemoryMapper<A>> DefaultMemoryManagaer<A, M> {
    pub closed spec fn allocator(&self) -> A {
        self.frame_allocator
    }

    pub closed spec fn mapper(&self) -> M {
        self.mem_mapper
    }

    pub fn new(m: M, fa: A) -> (r: Self)
        ensures
            r.mapper() == m,
            r.allocator() == fa,
    {
        DefaultMemoryManagaer { frame_allocator: fa, mem_mapper: m }
    }
}

impl<A: FrameAllocator, M: MemoryMapper<A>> PVMapper for DefaultMemoryManagaer<A, M> {
    /// What the mapper translates `v` to.
    fn v2p(&self, v: VirtualAddress) -> (r: Option<PhysicalAddress>)
        ensures
            call_ensures(M::v2p, (&self.mapper(), v), r),
    {
        self.mem_mapper.v2p(v)
    }

    /// What the mapper translates `p` back to.
    fn p2v(&self, p: PhysicalAddress) -> (r: Option<VirtualAddress>)
        ensures
            call_ensures(M::p2v, (&self.mapper(), p), r),
    {
        self.mem_mapper.p2v(p)
    }
}

impl<A: FrameAllocator, M: MemoryMapper<A>> MemoryManagaer for DefaultMemoryManagaer<A, M> {
    /// The mapper maps, drawing on the manager's own allocator: the result
    /// is the mapper's, and the mapper and the allocator are left as the
    /// mapper's `map` leaves them.
    fn map(&mut self, p: PhysicalAddress, v: VirtualAddress, size: MemorySize) -> (r: Result<(), ()>)
        ensures
            exists|m: &mut M, a: &mut A|
                mut_ref_current(m) == old(self).mapper() && mut_ref_future(m) == final(self).mapper() && mut_ref_current(a) == old(self).allocator() && mut_ref_future(a)
                    == final(self).allocator() && #[trigger] call_ensures(
                    M::map,
                    (m, a, p, v, size),
                    r,
                ),
    {
        self.mem_mapper.map(&mut self.frame_allocator, p, v, size)
    }

    /// The mapper unmaps, drawing on the manager's own allocator: the result
    /// is the mapper's, and the mapper and the allocator are left as the
    /// mapper's `unmap` leaves them.
    fn unmap(&mut self, v: VirtualAddress, size: MemorySize) -> (r: Result<(), ()>)
        ensures
            exists|m: &mut M, a: &mut A|
                mut_ref_current(m) == old(self).mapper() && mut_ref_future(m) == final(self).mapper() && mut_ref_current(a) == old(self).allocator() && mut_ref_future(a)
                    == final(self).allocator() && #[trigger] call_ensures(
                    M::unmap,
                    (m, a, v, size),
                    r,
                ),
    {
        self.mem_mapper.unmap(&mut self.frame_allocator, v, size)
    }

    /// The mapper maps device memory, drawing on the manager's own
    /// allocator: the result is the mapper's, and the mapper and the
    /// allocator are left as the mapper's `map_device` leaves them.
    fn map_device(&mut self, p: PhysicalAddress, v: VirtualAddress, size: MemorySize) -> (r: Result<
        (),
        (),
    >)
        ensures
            exists|m: &mut M, a: &mut A|
                mut_ref_current(m) == old(self).mapper() && mut_ref_future(m) == final(self).mapper() && mut_ref_current(a) == old(self).allocator() && mut_ref_future(a)
                    == final(self).allocator() && #[trigger] call_ensures(
                    M::map_device,
                    (m, a, p, v, size),
                    r,
                ),
    {
        self.mem_mapper.map_device(&mut self.frame_allocator, p, v, size)
    }
}

} // verus!
