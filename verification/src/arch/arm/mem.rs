//! Frames and translation-table entries.
//!
//! The first-level table has an entry for every megabyte of the address
//! space.  An entry is empty, maps the whole megabyte (a section), or points
//! to a second-level table with an entry for every page of the megabyte.

use vstd::prelude::*;
use crate::mem::{FrameAllocator, PhysicalAddress, VirtualAddress};

verus! {

pub const PAGE_SHIFT: usize = 12;

pub const PAGE_SIZE: usize = 4096;

pub const PAGE_MASK: usize = 4095;

pub const L1TABLE_ENTRIES: usize = 4096;

pub const L2TABLE_ENTRIES: usize = 256;

pub const MB_SHIFT: usize = 20;

pub const MB_SIZE: usize = 0x10_0000;

pub const MB_MASK: usize = 0xf_ffff;

/// How many ranges an allocator can be told to keep off, and how many
/// returned ranges it can note.
pub const MAX_RANGES: usize = 10;

pub const CACHEABLE: u32 = 0x8;

pub const BUFFERABLE: u32 = 0x4;

pub const L2_XPAGE_TYPE: u32 = 0x2;

pub const L2_AP_ALL_ACCESS: u32 = 0x30;

pub const L1_AP_ALL_ACCESS: u32 = 0xc00;

/// Where the translation tables themselves are mapped.
pub const L1_VIRT_ADDRESS: usize = 0xe000_0000;

/// `a` rounded up to a page boundary.
pub fn up(a: usize) -> (r: usize)
    requires
        a + PAGE_MASK <= usize::MAX,
    ensures
        r % 4096 == 0,
        a <= r < a + 4096,
{
    assert((a + 4095) as usize & !4095usize == (a + 4095) as usize - ((a + 4095) as usize % 4096))
        by (bit_vector);
    (a + PAGE_MASK) & (!PAGE_MASK)
}

/// `a` rounded down to a page boundary.
pub fn down(a: usize) -> (r: usize)
    ensures
        r % 4096 == 0,
        r <= a < r + 4096,
{
    assert(a & !4095usize == a - (a % 4096)) by (bit_vector);
    a & (!PAGE_MASK)
}

/// `a` rounded up to a megabyte boundary.
pub fn mb_up(a: usize) -> (r: usize)
    requires
        a + MB_MASK <= usize::MAX,
    ensures
        r % 0x10_0000 == 0,
        a <= r < a + 0x10_0000,
{
    assert((a + 0xf_ffff) as usize & !0xf_ffffusize == (a + 0xf_ffff) as usize - ((a
        + 0xf_ffff) as usize % 0x10_0000)) by (bit_vector);
    (a + MB_MASK) & (!MB_MASK)
}

/// `a` rounded down to a megabyte boundary.
pub fn mb_down(a: usize) -> (r: usize)
    ensures
        r % 0x10_0000 == 0,
        r <= a < r + 0x10_0000,
{
    assert(a & !0xf_ffffusize == a - (a % 0x10_0000)) by (bit_vector);
    a & (!MB_MASK)
}

/// A stretch of physical memory, from `start` up to and not including `end`.
#[derive(Copy, Clone, PartialEq, Eq, Structural, Debug)]
pub struct FrameRange {
    pub start: PhysicalAddress,
    pub end: PhysicalAddress,
}

/// The stretch of `size` bytes from `a` on shares a byte with `r` or, where
/// it is empty, lies inside `r`.
pub open spec fn overlaps(a: int, size: int, r: FrameRange) -> bool {
    a < r.end.0 && r.start.0 < a + size
}

/// The stretch of `size` bytes from `a` on keeps off every range.
pub open spec fn keeps_off(ranges: Seq<FrameRange>, a: int, size: int) -> bool {
    forall|i: int| 0 <= i < ranges.len() ==> !overlaps(a, size, #[trigger] ranges[i])
}

/// `a` is the first address from `start` on from which a stretch of `size`
/// bytes keeps off every range.
pub open spec fn is_first_fit(ranges: Seq<FrameRange>, start: int, size: int, a: int) -> bool {
    &&& start <= a
    &&& keeps_off(ranges, a, size)
    &&& forall|b: int| start <= b < a ==> !#[trigger] keeps_off(ranges, b, size)
}

/// An allocator that only ever moves forward: it hands out the memory after
/// the last stretch it handed out, stepping over the ranges it has been told
/// to keep off, and notes what is given back without using it again.
pub struct LameFrameAllocatorInner {
    nextfree: PhysicalAddress,
    max: PhysicalAddress,
    ranges: Vec<FrameRange>,
    free_frames: Vec<FrameRange>,
}

pub struct LameFrameAllocator {
    cpu_mutex: crate::sync::CpuMutex<LameFrameAllocatorInner>,
}

impl LameFrameAllocatorInner {
    /// Where the next search starts.
    pub closed spec fn nextfree(&self) -> usize {
        self.nextfree.0
    }

    /// The end of the memory.
    pub closed spec fn max(&self) -> usize {
        self.max.0
    }

    /// The ranges to keep off.
    pub closed spec fn ranges(&self) -> Seq<FrameRange> {
        self.ranges@
    }

    /// The ranges that have been given back.
    pub closed spec fn free_frames(&self) -> Seq<FrameRange> {
        self.free_frames@
    }

    pub closed spec fn wf(&self) -> bool {
        self.free_frames@.len() < MAX_RANGES
    }

    /// An allocator for the memory below `max_size` that keeps off `ranges`
    /// and off the first page.
    pub fn new(ranges: &Vec<FrameRange>, max_size: usize) -> (a: Self)
        requires
            ranges@.len() <= MAX_RANGES,
        ensures
            a.wf(),
            a.nextfree() == PAGE_SIZE,
            a.max() == max_size,
            a.ranges() == ranges@,
            a.free_frames().len() == 0,
    {
        let mut copy_ranges: Vec<FrameRange> = Vec::new();
        let mut i: usize = 0;
        while i < ranges.len()
            invariant
                i <= ranges@.len(),
                copy_ranges@ == ranges@.take(i as int),
            decreases ranges@.len() - i,
        {
            copy_ranges.push(ranges[i]);
            assert(copy_ranges@ =~= ranges@.take(i + 1));
            i = i + 1;
        }
        assert(ranges@.take(i as int) =~= ranges@);
        LameFrameAllocatorInner {
            max: PhysicalAddress(max_size),
            nextfree: PhysicalAddress(PAGE_SIZE),
            ranges: copy_ranges,
            free_frames: Vec::new(),
        }
    }

    /// Whether `number` frames can be asked for: the search may go as far as
    /// the end of the last range to keep off, and the stretch must still end
    /// inside the address space.
    pub fn can_allocate(&self, number: usize) -> (b: bool)
        ensures
            b == (number <= 0xf_ffff && self.nextfree() + number * 4096 <= usize::MAX && forall|
                i: int,
            |
                0 <= i < self.ranges().len() ==> (#[trigger] self.ranges()[i]).end.0 + number * 4096
                    <= usize::MAX),
    {
        if number > 0xf_ffff {
            return false;
        }
        let size = number * 4096;
        if self.nextfree.0 > usize::MAX - size {
            return false;
        }
        let mut k: usize = 0;
        while k < self.ranges.len()
            invariant
                k <= self.ranges@.len(),
                size == number * 4096,
                forall|i: int| 0 <= i < k ==> (#[trigger] self.ranges@[i]).end.0 + size <= usize::MAX,
            decreases self.ranges@.len() - k,
        {
            if self.ranges[k].end.0 > usize::MAX - size {
                assert(self.ranges()[k as int].end.0 + number * 4096 > usize::MAX);
                return false;
            }
            k = k + 1;
        }
        true
    }

    /// Hands out `number` frames in a row: the first stretch of that length,
    /// from where the search starts, that keeps off every range.  There is
    /// none to hand out where the search starts at the end of the memory or
    /// past it, and where the stretch would end past it.  A stretch that was
    /// found is used up either way.
    pub fn allocate(&mut self, number: usize) -> (r: Option<PhysicalAddress>)
        requires
            old(self).wf(),
            number <= 0xf_ffff,
            old(self).nextfree() + number * 4096 <= usize::MAX,
            forall|i: int|
                0 <= i < old(self).ranges().len() ==> (#[trigger] old(self).ranges()[i]).end.0
                    + number * 4096 <= usize::MAX,
        ensures
            final(self).wf(),
            final(self).max() == old(self).max(),
            final(self).ranges() == old(self).ranges(),
            final(self).free_frames() == old(self).free_frames(),
            old(self).nextfree() >= old(self).max() ==> r is None && final(self).nextfree() == old(self).nextfree(),
            old(self).nextfree() < old(self).max() ==> (exists|a: int|
                {
                    &&& #[trigger] is_first_fit(
                        old(self).ranges(),
                        old(self).nextfree() as int,
                        number * 4096,
                        a,
                    )
                    &&& final(self).nextfree() == a + number * 4096
                    &&& r == if a + number * 4096 <= old(self).max() {
                        Some(PhysicalAddress(a as usize))
                    } else {
                        None
                    }
                }),
    {
        if self.nextfree.0 >= self.max.0 {
            return None;
        }
        assert(number << 12 == number * 4096) by (bit_vector)
            requires
                number <= 0xf_ffff,
        ;
        let size: usize = number << PAGE_SHIFT;
        let ghost start = self.nextfree.0;
        let mut cur_free: usize = self.nextfree.0;
        loop
            invariant
                self.wf(),
                self.max() == old(self).max(),
                self.ranges() == old(self).ranges(),
                self.free_frames() == old(self).free_frames(),
                start == old(self).nextfree(),
                size == number * 4096,
                start <= cur_free,
                cur_free + size <= usize::MAX,
                forall|i: int|
                    0 <= i < self.ranges().len() ==> (#[trigger] self.ranges()[i]).end.0 + size
                        <= usize::MAX,
                forall|b: int|
                    start <= b < cur_free ==> !#[trigger] keeps_off(self.ranges(), b, size as int),
            ensures
                keeps_off(self.ranges(), cur_free as int, size as int),
            decreases usize::MAX - cur_free,
        {
            let mut hit: Option<usize> = None;
            let mut k: usize = 0;
            while k < self.ranges.len()
                invariant
                    k <= self.ranges@.len(),
                    cur_free + size <= usize::MAX,
                    hit is None ==> forall|i: int|
                        0 <= i < k ==> !overlaps(
                            cur_free as int,
                            size as int,
                            #[trigger] self.ranges@[i],
                        ),
                    hit matches Some(h) ==> h < self.ranges@.len() && overlaps(
                        cur_free as int,
                        size as int,
                        self.ranges@[h as int],
                    ),
                decreases self.ranges@.len() - k,
            {
                let r = &self.ranges[k];
                if hit.is_none() && cur_free < r.end.0 && r.start.0 < cur_free + size {
                    hit = Some(k);
                }
                k = k + 1;
            }
            match hit {
                Some(h) => {
                    let end = self.ranges[h].end.0;
                    assert forall|b: int| start <= b < end implies !#[trigger] keeps_off(
                        self.ranges(),
                        b,
                        size as int,
                    ) by {
                        if b >= cur_free {
                            assert(overlaps(b, size as int, self.ranges()[h as int]));
                        }
                    }
                    cur_free = end;
                },
                None => {
                    break ;
                },
            }
        }
        assert(is_first_fit(self.ranges(), start as int, size as int, cur_free as int));
        let potential_next = cur_free + size;
        self.nextfree = PhysicalAddress(potential_next);
        if potential_next > self.max.0 {
            return None;
        }
        Some(PhysicalAddress(cur_free))
    }

    /// Notes that `size` frames from `addr` on have been given back, as long
    /// as there is room to note it.
    pub fn deallocate(&mut self, addr: PhysicalAddress, size: usize)
        requires
            old(self).wf(),
            size <= 0xf_ffff,
            addr.0 + size * 4096 <= usize::MAX,
        ensures
            final(self).wf(),
            final(self).nextfree() == old(self).nextfree(),
            final(self).max() == old(self).max(),
            final(self).ranges() == old(self).ranges(),
            final(self).free_frames() == (if old(self).free_frames().len() + 1 < MAX_RANGES {
                old(self).free_frames().push(
                    FrameRange {
                        start: addr,
                        end: PhysicalAddress((addr.0 + size * 4096) as usize),
                    },
                )
            } else {
                old(self).free_frames()
            }),
    {
        if self.free_frames.len() + 1 < MAX_RANGES {
            assert(size << 12 == size * 4096) by (bit_vector)
                requires
                    size <= 0xf_ffff,
            ;
            self.free_frames.push(FrameRange { start: addr, end: addr.uoffset(size << PAGE_SHIFT) });
        }
    }
}

impl LameFrameAllocator {
    /// The allocator behind its lock.
    pub closed spec fn inner(&self) -> LameFrameAllocatorInner {
        self.cpu_mutex.value()
    }

    pub closed spec fn wf(&self) -> bool {
        self.cpu_mutex.is_free() && self.inner().wf()
    }

    pub fn new(ranges: &Vec<FrameRange>, max_size: usize) -> (a: LameFrameAllocator)
        requires
            ranges@.len() <= MAX_RANGES,
        ensures
            a.wf(),
            a.inner().nextfree() == PAGE_SIZE,
            a.inner().max() == max_size,
            a.inner().ranges() == ranges@,
            a.inner().free_frames().len() == 0,
    {
        LameFrameAllocator {
            cpu_mutex: crate::sync::CpuMutex::new(LameFrameAllocatorInner::new(ranges, max_size)),
        }
    }

    /// [`LameFrameAllocatorInner::can_allocate`], for a caller that is alone
    /// with the allocator.
    pub fn can_allocate(&self, number: usize) -> (b: bool)
        ensures
            b == (number <= 0xf_ffff && self.inner().nextfree() + number * 4096 <= usize::MAX
                && forall|i: int|
                0 <= i < self.inner().ranges().len() ==> (#[trigger] self.inner().ranges()[i]).end.0
                    + number * 4096 <= usize::MAX),
    {
        self.cpu_mutex.peek().can_allocate(number)
    }

    /// [`LameFrameAllocatorInner::allocate`] under the lock.
    pub fn allocate(&mut self, curcpu: usize, number: usize) -> (r: Option<PhysicalAddress>)
        requires
            old(self).wf(),
            number <= 0xf_ffff,
            old(self).inner().nextfree() + number * 4096 <= usize::MAX,
            forall|i: int|
                0 <= i < old(self).inner().ranges().len() ==> (#[trigger] old(self).inner().ranges()[i]).end.0 + number * 4096 <= usize::MAX,
        ensures
            final(self).wf(),
            final(self).inner().max() == old(self).inner().max(),
            final(self).inner().ranges() == old(self).inner().ranges(),
            final(self).inner().free_frames() == old(self).inner().free_frames(),
            old(self).inner().nextfree() >= old(self).inner().max() ==> r is None && final(self).inner().nextfree() == old(self).inner().nextfree(),
            old(self).inner().nextfree() < old(self).inner().max() ==> (exists|a: int|
                {
                    &&& #[trigger] is_first_fit(
                        old(self).inner().ranges(),
                        old(self).inner().nextfree() as int,
                        number * 4096,
                        a,
                    )
                    &&& final(self).inner().nextfree() == a + number * 4096
                    &&& r == if a + number * 4096 <= old(self).inner().max() {
                        Some(PhysicalAddress(a as usize))
                    } else {
                        None
                    }
                }),
    {
        let mut locked = self.cpu_mutex.lock(curcpu).unwrap();
        let r = locked.deref_mut().allocate(number);
        locked.unlock();
        r
    }

    /// [`LameFrameAllocatorInner::deallocate`] under the lock.
    pub fn deallocate(&mut self, curcpu: usize, addr: PhysicalAddress, size: usize)
        requires
            old(self).wf(),
            size <= 0xf_ffff,
            addr.0 + size * 4096 <= usize::MAX,
        ensures
            final(self).wf(),
            final(self).inner().nextfree() == old(self).inner().nextfree(),
            final(self).inner().max() == old(self).inner().max(),
            final(self).inner().ranges() == old(self).inner().ranges(),
            final(self).inner().free_frames() == (if old(self).inner().free_frames().len() + 1
                < MAX_RANGES {
                old(self).inner().free_frames().push(
                    FrameRange {
                        start: addr,
                        end: PhysicalAddress((addr.0 + size * 4096) as usize),
                    },
                )
            } else {
                old(self).inner().free_frames()
            }),
    {
        let mut locked = self.cpu_mutex.lock(curcpu).unwrap();
        locked.deref_mut().deallocate(addr, size);
        locked.unlock();
    }
}

/// An entry of a second-level table: a page.
#[derive(Copy, Clone, PartialEq, Eq, Structural, Debug)]
pub struct L2TableDescriptor(pub u32);

/// An entry of the first-level table: a section, or a second-level table.
#[derive(Copy, Clone, PartialEq, Eq, Structural, Debug)]
pub struct L1TableDescriptor(pub u32);

#[derive(Copy, Clone, PartialEq, Eq, Structural, Debug)]
pub struct FirstLevelTableDescriptor(pub u32);

impl L1TableDescriptor {
    /// The entry that points to the second-level table at
    /// `physical_address_of_l2`.
    pub fn new(physical_address_of_l2: PhysicalAddress) -> (d: L1TableDescriptor)
        requires
            physical_address_of_l2.0 % 4096 == 0,
            physical_address_of_l2.0 <= u32::MAX,
        ensures
            d.0 == physical_address_of_l2.0 + 1,
            d.spec_is_present(),
            !d.spec_is_section(),
            d.spec_physical_address() == physical_address_of_l2.0,
    {
        let pa = physical_address_of_l2.0 as u32;
        assert(pa % 4096 == 0 ==> (0u32 | 1 | pa) == pa + 1 && ((pa + 1) as u32) & 3 == 1 && ((pa
            + 1) as u32) & !4095u32 == pa) by (bit_vector);
        let mut d: L1TableDescriptor = L1TableDescriptor(0);
        d.0 |= 1;
        d.0 |= pa;
        d
    }

    /// The entry that maps the megabyte at `section_addr`, open to all, and
    /// cached and buffered where `cachable` says so.
    pub fn new_section(section_addr: PhysicalAddress, cachable: bool) -> (d: L1TableDescriptor)
        requires
            section_addr.0 % 0x10_0000 == 0,
            section_addr.0 <= u32::MAX,
        ensures
            d.0 == section_addr.0 + (if cachable {
                0xc0eint
            } else {
                0xc02int
            }),
            d.spec_is_present(),
            d.spec_is_section(),
            d.spec_physical_address() == section_addr.0,
    {
        let pa = section_addr.0 as u32;
        assert(pa % 0x10_0000 == 0 ==> (0u32 | 2 | 8 | 4 | 0xc00 | pa) == pa + 0xc0e && (0u32 | 2
            | 0xc00 | pa) == pa + 0xc02 && ((pa + 0xc0e) as u32) & 3 == 2 && ((pa + 0xc02) as u32)
            & 3 == 2 && ((pa + 0xc0e) as u32) & !0xf_ffffu32 == pa && ((pa + 0xc02) as u32)
            & !0xf_ffffu32 == pa) by (bit_vector);
        let mut d: L1TableDescriptor = L1TableDescriptor(0);
        d.0 |= 0b10;
        if cachable {
            d.0 |= CACHEABLE;
            d.0 |= BUFFERABLE;
        }
        d.0 |= L1_AP_ALL_ACCESS;
        d.0 |= pa;
        d
    }

    pub open spec fn spec_is_present(&self) -> bool {
        self.0 != 0
    }

    pub open spec fn spec_is_section(&self) -> bool {
        self.0 & 3 == 2
    }

    /// The address that the entry points to: of the section, or of the
    /// second-level table.
    pub open spec fn spec_physical_address(&self) -> usize {
        if self.spec_is_section() {
            (self.0 & !0xf_ffffu32) as usize
        } else {
            (self.0 & !4095u32) as usize
        }
    }

    pub fn is_present(&self) -> (b: bool)
        ensures
            b == self.spec_is_present(),
    {
        self.0 != 0
    }

    pub fn is_section(&self) -> (b: bool)
        ensures
            b == self.spec_is_section(),
    {
        self.0 & 0b11 == 0b10
    }

    pub fn get_physical_address(&self) -> (p: PhysicalAddress)
        requires
            self.spec_is_present(),
        ensures
            p.0 == self.spec_physical_address(),
    {
        if self.is_section() {
            return PhysicalAddress((self.0 & !0xf_ffffu32) as usize);
        }
        PhysicalAddress((self.0 & !4095u32) as usize)
    }
}

impl L2TableDescriptor {
    /// The entry that maps the page at `physical_address_of_page` as normal
    /// memory: cached, buffered, open to all.
    pub fn new(physical_address_of_page: PhysicalAddress) -> (d: L2TableDescriptor)
        requires
            physical_address_of_page.0 % 4096 == 0,
            physical_address_of_page.0 <= u32::MAX,
        ensures
            d.0 == physical_address_of_page.0 + 0x3e,
            d.spec_is_present(),
            d.spec_physical_address() == physical_address_of_page.0,
    {
        let pa = physical_address_of_page.0 as u32;
        assert(pa % 4096 == 0 ==> (0u32 | 2 | 8 | 4 | 0x30 | pa) == pa + 0x3e && ((pa
            + 0x3e) as u32) & !4095u32 == pa) by (bit_vector);
        let mut d: L2TableDescriptor = L2TableDescriptor(0);
        d.0 |= L2_XPAGE_TYPE;
        d.0 |= CACHEABLE;
        d.0 |= BUFFERABLE;
        d.0 |= L2_AP_ALL_ACCESS;
        d.0 |= pa;
        d
    }

    /// The entry that maps the page at `physical_address_of_page` as device
    /// memory: neither cached nor buffered, open to all.
    pub fn new_device(physical_address_of_page: PhysicalAddress) -> (d: L2TableDescriptor)
        requires
            physical_address_of_page.0 % 4096 == 0,
            physical_address_of_page.0 <= u32::MAX,
        ensures
            d.0 == physical_address_of_page.0 + 0x32,
            d.spec_is_present(),
            d.spec_physical_address() == physical_address_of_page.0,
    {
        let pa = physical_address_of_page.0 as u32;
        assert(pa % 4096 == 0 ==> (0u32 | 2 | 0x30 | pa) == pa + 0x32 && ((pa + 0x32) as u32)
            & !4095u32 == pa) by (bit_vector);
        let mut d: L2TableDescriptor = L2TableDescriptor(0);
        d.0 |= L2_XPAGE_TYPE;
        d.0 |= L2_AP_ALL_ACCESS;
        d.0 |= pa;
        d
    }

    pub open spec fn spec_is_present(&self) -> bool {
        self.0 != 0
    }

    pub open spec fn spec_physical_address(&self) -> usize {
        (self.0 & !4095u32) as usize
    }

    pub fn is_present(&self) -> (b: bool)
        ensures
            b == self.spec_is_present(),
    {
        self.0 != 0
    }

    pub fn get_physical_address(&self) -> (p: PhysicalAddress)
        requires
            self.spec_is_present(),
        ensures
            p.0 == self.spec_physical_address(),
    {
        PhysicalAddress((self.0 & !4095u32) as usize)
    }
}

/// Where the kernel and its first stack lie.
#[derive(Copy, Clone, Debug)]
pub struct MemLayout {
    pub kernel_start_phy: PhysicalAddress,
    pub kernel_start_virt: VirtualAddress,
    pub kernel_end_virt: VirtualAddress,
    pub stack_phy: PhysicalAddress,
    pub stack_virt: VirtualAddress,
}

/// The frame at place `i` among the seven frames from `pa` on, counted from
/// the first of them that lies on a sixteen-kilobyte boundary and going
/// round at the end.
pub open spec fn init_frame(pa: usize, i: int) -> int {
    let first = (4 - (pa / 4096) % 4) % 4;
    pa + ((i + first) % 7) * 4096
}

/// Of seven frames in a row from `pa` on, five: four in a row that start on
/// a sixteen-kilobyte boundary, for a first-level table, and one more.
pub fn init_frames(pa: PhysicalAddress) -> (frames: [PhysicalAddress; 7])
    requires
        pa.0 % 4096 == 0,
        pa.0 + 7 * 4096 <= u32::MAX,
    ensures
        forall|i: int| 0 <= i < 7 ==> (#[trigger] frames@[i]).0 == init_frame(pa.0, i),
        frames@[0].0 % 0x4000 == 0,
        forall|i: int| 0 <= i < 4 ==> (#[trigger] frames@[i]).0 == frames@[0].0 + i * 4096,
{
    let addr = pa.0;
    assert((addr >> 12) & 3 == (addr / 4096) % 4) by (bit_vector);
    let past = (addr >> PAGE_SHIFT) & 0b11;
    let l1_start_frame: usize = if past == 0 {
        0
    } else {
        4 - past
    };
    let mut free_frames: [PhysicalAddress; 7] = [PhysicalAddress(0); 7];
    let mut i: usize = 0;
    while i < 7
        invariant
            i <= 7,
            l1_start_frame == (4 - (pa.0 / 4096) % 4) % 4,
            pa.0 + 7 * 4096 <= u32::MAX,
            forall|j: int| 0 <= j < i ==> (#[trigger] free_frames@[j]).0 == init_frame(pa.0, j),
        decreases 7 - i,
    {
        let shifted_index = (i + l1_start_frame) % 7;
        free_frames[i] = PhysicalAddress(pa.0 + shifted_index * PAGE_SIZE);
        i = i + 1;
    }
    assert(free_frames@[0].0 == init_frame(pa.0, 0));
    assert(free_frames@[1].0 == init_frame(pa.0, 1));
    assert(free_frames@[2].0 == init_frame(pa.0, 2));
    assert(free_frames@[3].0 == init_frame(pa.0, 3));
    free_frames
}

/// Whether a stretch that an allocator has handed out can hold the tables:
/// it is there, it starts on a page boundary, and seven frames from its
/// start can be addressed.
pub open spec fn is_usable_stretch(got: Option<PhysicalAddress>) -> bool {
    got matches Some(pa) && pa.0 % 4096 == 0 && pa.0 <= 0xffff_0000
}

/// Takes seven frames in a row from `fa`, gives two of them back, and
/// returns the other five: four in a row that start on a sixteen-kilobyte
/// boundary, and one more.
///
/// The allocator is asked once, for seven frames.  Where it hands out a
/// stretch that can hold the tables, the result is the first five of
/// [`init_frames`] of that stretch, and the other two are given back, one
/// frame each, the sixth before the seventh.  Where it hands out nothing, or
/// a stretch that is not on a page boundary or cannot be addressed, the
/// result is `None` and the allocator is asked nothing more.
pub fn get_init_frames<A: FrameAllocator>(fa: &mut A) -> (r: Option<[PhysicalAddress; 5]>)
    ensures
        r matches Some(frames) ==> frames@[0].0 % 0x4000 == 0 && forall|i: int|
            0 <= i < 4 ==> (#[trigger] frames@[i]).0 == frames@[0].0 + i * 4096,
        exists|a: &mut A, got: Option<PhysicalAddress>|
            mut_ref_current(a) == *old(fa) && #[trigger] call_ensures(A::allocate, (a, 7usize), got)
                && (if is_usable_stretch(got) {
                &&& r matches Some(frames) && forall|i: int|
                    0 <= i < 5 ==> (#[trigger] frames@[i]).0 == init_frame(got.unwrap().0, i)
                &&& exists|b: &mut A, c: &mut A|
                    mut_ref_current(b) == mut_ref_future(a) && mut_ref_current(c) == mut_ref_future(
                        b,
                    ) && mut_ref_future(c) == *final(fa) && #[trigger] call_ensures(
                        A::deallocate,
                        (b, PhysicalAddress(init_frame(got.unwrap().0, 5) as usize), 1usize),
                        (),
                    ) && #[trigger] call_ensures(
                        A::deallocate,
                        (c, PhysicalAddress(init_frame(got.unwrap().0, 6) as usize), 1usize),
                        (),
                    )
            } else {
                r is None && mut_ref_future(a) == *final(fa)
            }),
{
    let got = fa.allocate(7);
    let pa = match got {
        Some(pa) => pa,
        None => {
            return None;
        },
    };
    if pa.0 % PAGE_SIZE != 0 || pa.0 > 0xffff_0000 {
        return None;
    }
    let free_frames = init_frames(pa);
    assert(free_frames@[5] == PhysicalAddress(init_frame(pa.0, 5) as usize));
    assert(free_frames@[6] == PhysicalAddress(init_frame(pa.0, 6) as usize));
    fa.deallocate(free_frames[5], 1);
    fa.deallocate(free_frames[6], 1);
    let frames = [free_frames[0], free_frames[1], free_frames[2], free_frames[3], free_frames[4]];
    assert(is_usable_stretch(got));
    assert(forall|i: int| 0 <= i < 5 ==> (#[trigger] frames@[i]).0 == init_frame(pa.0, i));
    Some(frames)
}

/// The first-level table: an entry for every megabyte.
pub struct L1Table {
    pub descriptors: Vec<L1TableDescriptor>,
}

/// A second-level table: an entry for every page of a megabyte.
pub struct L2Table {
    pub descriptors: Vec<L2TableDescriptor>,
}

impl L1Table {
    pub open spec fn wf(&self) -> bool {
        self.descriptors@.len() == L1TABLE_ENTRIES
    }

    /// A table with nothing mapped.
    pub fn new() -> (t: L1Table)
        ensures
            t.wf(),
            forall|i: int| 0 <= i < L1TABLE_ENTRIES ==> !(#[trigger] t.descriptors@[i]).spec_is_present(),
    {
        let mut descriptors: Vec<L1TableDescriptor> = Vec::new();
        while descriptors.len() < L1TABLE_ENTRIES
            invariant
                descriptors@.len() <= L1TABLE_ENTRIES,
                forall|i: int|
                    0 <= i < descriptors@.len() ==> !(#[trigger] descriptors@[i]).spec_is_present(),
            decreases L1TABLE_ENTRIES - descriptors@.len(),
        {
            descriptors.push(L1TableDescriptor(0));
        }
        L1Table { descriptors }
    }

    pub fn index(&self, index: usize) -> (d: &L1TableDescriptor)
        requires
            index < self.descriptors@.len(),
        ensures
            *d == self.descriptors@[index as int],
    {
        &self.descriptors[index]
    }
}

impl L2Table {
    pub open spec fn wf(&self) -> bool {
        self.descriptors@.len() == L2TABLE_ENTRIES
    }

    /// A table with nothing mapped.
    pub fn new() -> (t: L2Table)
        ensures
            t.wf(),
            forall|i: int| 0 <= i < L2TABLE_ENTRIES ==> !(#[trigger] t.descriptors@[i]).spec_is_present(),
    {
        let mut descriptors: Vec<L2TableDescriptor> = Vec::new();
        while descriptors.len() < L2TABLE_ENTRIES
            invariant
                descriptors@.len() <= L2TABLE_ENTRIES,
                forall|i: int|
                    0 <= i < descriptors@.len() ==> !(#[trigger] descriptors@[i]).spec_is_present(),
            decreases L2TABLE_ENTRIES - descriptors@.len(),
        {
            descriptors.push(L2TableDescriptor(0));
        }
        L2Table { descriptors }
    }

    pub fn index(&self, index: usize) -> (d: &L2TableDescriptor)
        requires
            index < self.descriptors@.len(),
        ensures
            *d == self.descriptors@[index as int],
    {
        &self.descriptors[index]
    }

    /// The translation of `v` by this table, which is the one for the
    /// megabyte of `v`: the page that its entry names, and the place of `v`
    /// in its own page.
    pub fn v2p(&self, v: VirtualAddress) -> (r: Option<PhysicalAddress>)
        requires
            self.wf(),
        ensures
            r == spec_page_translation(self.descriptors@[((v.0 / 4096) % 256) as int], v),
    {
        let addr = v.0;
        assert((addr >> 12) & 0xff == (addr / 4096) % 256 && addr & 4095 == addr % 4096)
            by (bit_vector);
        let l2_index = (v.0 >> PAGE_SHIFT) & 0xFF;
        let l2descriptor = &self.descriptors[l2_index];
        if !l2descriptor.is_present() {
            return None;
        }
        let page = l2descriptor.get_physical_address().0;
        let within = v.0 & PAGE_MASK;
        assert(page == (l2descriptor.0 & !4095u32) as usize);
        let word = l2descriptor.0;
        assert((word & !4095u32) % 4096 == 0 && (word & !4095u32) <= 0xffff_f000) by (bit_vector);
        assert(page | within == page + within) by (bit_vector)
            requires
                page % 4096 == 0,
                within < 4096,
        ;
        Some(PhysicalAddress(page | within))
    }
}

/// Where the page entry `d` takes the address `v`.
pub open spec fn spec_page_translation(d: L2TableDescriptor, v: VirtualAddress) -> Option<
    PhysicalAddress,
> {
    if d.spec_is_present() {
        Some(PhysicalAddress((d.spec_physical_address() + v.0 % 4096) as usize))
    } else {
        None
    }
}

/// What the first-level table says of an address.
#[derive(Copy, Clone, PartialEq, Eq, Structural, Debug)]
pub enum Walk {
    /// Nothing is mapped there.
    NotMapped,
    /// The address lies in a section and translates to this.
    Mapped(PhysicalAddress),
    /// The second-level table at this address has the answer.
    Table(PhysicalAddress),
}

/// What the entry `d` says of the address `v`.
pub open spec fn spec_walk(d: L1TableDescriptor, v: VirtualAddress) -> Walk {
    if !d.spec_is_present() {
        Walk::NotMapped
    } else if d.spec_is_section() {
        Walk::Mapped(PhysicalAddress((d.spec_physical_address() + v.0 % 0x10_0000) as usize))
    } else {
        Walk::Table(PhysicalAddress(d.spec_physical_address()))
    }
}

pub struct PageTableInner {
    pub descriptors: L1Table,
    tmp_map: L2Table,
}

pub struct PageTable {
    cpu_mutex: crate::sync::CpuMutex<PageTableInner>,
}

impl PageTableInner {
    pub closed spec fn wf(&self) -> bool {
        self.descriptors.wf() && self.tmp_map.wf()
    }

    /// The first-level entries.
    pub closed spec fn entries(&self) -> Seq<L1TableDescriptor> {
        self.descriptors.descriptors@
    }

    /// A page table with nothing mapped.
    pub fn new() -> (t: PageTableInner)
        ensures
            t.wf(),
            forall|i: int| 0 <= i < L1TABLE_ENTRIES ==> !(#[trigger] t.entries()[i]).spec_is_present(),
    {
        PageTableInner { descriptors: L1Table::new(), tmp_map: L2Table::new() }
    }

    /// Makes `s` the entry for the megabyte of `v`.
    pub fn map_section(&mut self, s: L1TableDescriptor, v: VirtualAddress)
        requires
            old(self).wf(),
            v.0 <= u32::MAX,
        ensures
            final(self).wf(),
            final(self).entries() == old(self).entries().update((v.0 / 0x10_0000) as int, s),
    {
        let addr = v.0;
        assert(addr >> 20 == addr / 0x10_0000) by (bit_vector);
        let l1_index = v.0 >> MB_SHIFT;
        self.descriptors.descriptors[l1_index] = s;
        assert(self.descriptors.descriptors@ =~= old(self).entries().update((v.0 / 0x10_0000) as int, s));
    }

    /// The first step of translating `v`: what the first-level table says.
    /// Where it names a second-level table, that table's
    /// [`L2Table::v2p`] has the rest.
    pub fn v2p(&self, v: VirtualAddress) -> (w: Walk)
        requires
            self.wf(),
            v.0 <= u32::MAX,
        ensures
            w == spec_walk(self.entries()[(v.0 / 0x10_0000) as int], v),
    {
        let addr = v.0;
        assert(addr >> 20 == addr / 0x10_0000 && addr & 0xf_ffff == addr % 0x10_0000)
            by (bit_vector);
        let l1_index = v.0 >> MB_SHIFT;
        let l1descriptor = self.descriptors.index(l1_index);
        if !l1descriptor.is_present() {
            return Walk::NotMapped;
        }
        if l1descriptor.is_section() {
            let phy_mb = l1descriptor.get_physical_address().0;
            let within = v.0 & MB_MASK;
            let word = l1descriptor.0;
            assert((word & !0xf_ffffu32) % 0x10_0000 == 0 && (word & !0xf_ffffu32) <= 0xfff0_0000)
                by (bit_vector);
            assert(phy_mb | within == phy_mb + within) by (bit_vector)
                requires
                    phy_mb % 0x10_0000 == 0,
                    within < 0x10_0000,
            ;
            return Walk::Mapped(PhysicalAddress(phy_mb | within));
        }
        Walk::Table(l1descriptor.get_physical_address())
    }
}

impl PageTable {
    pub closed spec fn inner(&self) -> PageTableInner {
        self.cpu_mutex.value()
    }

    pub closed spec fn wf(&self) -> bool {
        self.cpu_mutex.is_free() && self.inner().wf()
    }

    pub fn new() -> (t: PageTable)
        ensures
            t.wf(),
            forall|i: int|
                0 <= i < L1TABLE_ENTRIES ==> !(#[trigger] t.inner().entries()[i]).spec_is_present(),
    {
        PageTable { cpu_mutex: crate::sync::CpuMutex::new(PageTableInner::new()) }
    }

    /// [`PageTableInner::v2p`] under the lock.
    pub fn v2p(&mut self, curcpu: usize, v: VirtualAddress) -> (w: Walk)
        requires
            old(self).wf(),
            v.0 <= u32::MAX,
        ensures
            final(self).wf(),
            final(self).inner().entries() == old(self).inner().entries(),
            w == spec_walk(old(self).inner().entries()[(v.0 / 0x10_0000) as int], v),
    {
        let locked = self.cpu_mutex.lock(curcpu).unwrap();
        let w = locked.deref().v2p(v);
        locked.unlock();
        w
    }
}

} // verus!
