use armkernel::arch::arm::mem::{
    down, get_init_frames, init_frames, mb_down, mb_up, up, FrameRange, L1Table,
    L1TableDescriptor, L2Table, L2TableDescriptor, LameFrameAllocator, LameFrameAllocatorInner,
    PageTable, PageTableInner, Walk,
};
use armkernel::mem::{
    to_bytes, to_pages, DefaultMemoryManagaer, FrameAllocator, MemoryManagaer, MemoryMapper,
    MemorySize, PVMapper, PhysicalAddress, VirtualAddress,
};

#[test]
fn sizes_in_bytes() {
    assert_eq!(to_bytes(MemorySize::Bytes(17)), 17);
    assert_eq!(to_bytes(MemorySize::KiloBytes(3)), 3072);
    assert_eq!(to_bytes(MemorySize::MegaBytes(40)), 40 << 20);
    assert_eq!(to_bytes(MemorySize::GigaBytes(1)), 1 << 30);
    assert_eq!(to_bytes(MemorySize::PageSizes(4)), 16384);
}

#[test]
fn sizes_in_pages() {
    assert_eq!(to_pages(MemorySize::PageSizes(4)), Ok(4));
    assert_eq!(to_pages(MemorySize::MegaBytes(40)), Ok(10240));
    assert_eq!(to_pages(MemorySize::KiloBytes(8)), Ok(2));
    assert_eq!(to_pages(MemorySize::Bytes(0)), Ok(0));
    assert_eq!(to_pages(MemorySize::Bytes(4097)), Err(()));
    assert_eq!(to_pages(MemorySize::KiloBytes(3)), Err(()));
}

#[test]
fn address_offsets() {
    let v = VirtualAddress(0x1000);
    assert_eq!(v.offset(-4), VirtualAddress(0xffc));
    assert_eq!(v.offset(0x44), VirtualAddress(0x1044));
    assert_eq!(v.uoffset(0x1000), VirtualAddress(0x2000));
    let p = PhysicalAddress(0x4000_0000);
    assert_eq!(p.offset(-0x4000_0000), PhysicalAddress(0));
    assert_eq!(p.offset(0x80), PhysicalAddress(0x4000_0080));
    assert_eq!(p.uoffset(4), PhysicalAddress(0x4000_0004));
    assert_eq!(to_bytes(VirtualAddress(0x5000) - VirtualAddress(0x1000)), 0x4000);
    assert_eq!(to_bytes(PhysicalAddress(0x5000) - PhysicalAddress(0x5000)), 0);
}

#[test]
fn rounding_to_pages_and_megabytes() {
    assert_eq!(up(0), 0);
    assert_eq!(up(1), 4096);
    assert_eq!(up(4096), 4096);
    assert_eq!(up(4097), 8192);
    assert_eq!(down(4095), 0);
    assert_eq!(down(4096), 4096);
    assert_eq!(down(8191), 4096);
    assert_eq!(mb_up(1), 0x10_0000);
    assert_eq!(mb_up(0x10_0000), 0x10_0000);
    assert_eq!(mb_down(0x1f_ffff), 0x10_0000);
}

fn range(a: usize, b: usize) -> FrameRange {
    FrameRange { start: PhysicalAddress(a), end: PhysicalAddress(b) }
}

#[test]
fn allocator_starts_after_the_first_page() {
    let mut a = LameFrameAllocatorInner::new(&vec![], 0x10_0000);
    assert_eq!(a.allocate(1), Some(PhysicalAddress(0x1000)));
    assert_eq!(a.allocate(2), Some(PhysicalAddress(0x2000)));
    assert_eq!(a.allocate(1), Some(PhysicalAddress(0x4000)));
}

#[test]
fn allocator_steps_over_the_ranges_to_keep_off() {
    let skip = vec![range(0x3000, 0x5000), range(0x5000, 0x8000), range(0x9000, 0xa000)];
    let mut a = LameFrameAllocatorInner::new(&skip, 0x10_0000);
    assert_eq!(a.allocate(2), Some(PhysicalAddress(0x1000)));
    // one frame fits between the second and the third range
    assert_eq!(a.allocate(1), Some(PhysicalAddress(0x8000)));
    // two do not: they go after the third
    let mut b = LameFrameAllocatorInner::new(&skip, 0x10_0000);
    assert_eq!(b.allocate(3), Some(PhysicalAddress(0xa000)));
}

#[test]
fn allocator_runs_out_at_the_end_of_memory() {
    let mut a = LameFrameAllocatorInner::new(&vec![], 0x4000);
    assert_eq!(a.allocate(3), Some(PhysicalAddress(0x1000)));
    assert_eq!(a.allocate(1), None);
    let mut b = LameFrameAllocatorInner::new(&vec![], 0x4000);
    // a stretch that ends past the end is not handed out, and is used up
    assert_eq!(b.allocate(4), None);
    assert_eq!(b.allocate(1), None);
}

#[test]
fn allocator_under_its_lock() {
    let mut a = LameFrameAllocator::new(&vec![range(0x1000, 0x2000)], 0x10_0000);
    assert_eq!(a.allocate(0, 1), Some(PhysicalAddress(0x2000)));
    a.deallocate(0, PhysicalAddress(0x2000), 1);
    // what is given back is noted and not handed out again
    assert_eq!(a.allocate(1, 1), Some(PhysicalAddress(0x3000)));
}

#[test]
fn first_level_entries() {
    let d = L1TableDescriptor::new(PhysicalAddress(0x8_3000));
    assert_eq!(d.0, 0x8_3001);
    assert!(d.is_present());
    assert!(!d.is_section());
    assert_eq!(d.get_physical_address(), PhysicalAddress(0x8_3000));
    let s = L1TableDescriptor::new_section(PhysicalAddress(0x3f00_0000), false);
    assert_eq!(s.0, 0x3f00_0c02);
    assert!(s.is_section());
    assert_eq!(s.get_physical_address(), PhysicalAddress(0x3f00_0000));
    let c = L1TableDescriptor::new_section(PhysicalAddress(0x10_0000), true);
    assert_eq!(c.0, 0x10_0c0e);
    assert!(!L1TableDescriptor(0).is_present());
}

#[test]
fn second_level_entries() {
    let d = L2TableDescriptor::new(PhysicalAddress(0x8_3000));
    assert_eq!(d.0, 0x8_303e);
    assert!(d.is_present());
    assert_eq!(d.get_physical_address(), PhysicalAddress(0x8_3000));
    let dev = L2TableDescriptor::new_device(PhysicalAddress(0x3f20_1000));
    assert_eq!(dev.0, 0x3f20_1032);
    assert_eq!(dev.get_physical_address(), PhysicalAddress(0x3f20_1000));
    assert!(!L2TableDescriptor(0).is_present());
}

#[test]
fn tables_start_empty() {
    let l1 = L1Table::new();
    assert_eq!(l1.descriptors.len(), 4096);
    assert!(!l1.index(4095).is_present());
    let l2 = L2Table::new();
    assert_eq!(l2.descriptors.len(), 256);
    assert!(!l2.index(0).is_present());
}

#[test]
fn translation_through_a_section() {
    let mut t = PageTableInner::new();
    assert_eq!(t.v2p(VirtualAddress(0x1020_0044)), Walk::NotMapped);
    t.map_section(
        L1TableDescriptor::new_section(PhysicalAddress(0x3f20_0000), false),
        VirtualAddress(0x1020_0000),
    );
    assert_eq!(t.v2p(VirtualAddress(0x1020_0044)), Walk::Mapped(PhysicalAddress(0x3f20_0044)));
    assert_eq!(t.v2p(VirtualAddress(0x102f_ffff)), Walk::Mapped(PhysicalAddress(0x3f2f_ffff)));
    assert_eq!(t.v2p(VirtualAddress(0x1030_0000)), Walk::NotMapped);
}

#[test]
fn translation_through_a_second_level_table() {
    let mut t = PageTableInner::new();
    t.map_section(L1TableDescriptor::new(PhysicalAddress(0x7000)), VirtualAddress(0xc000_0000));
    assert_eq!(t.v2p(VirtualAddress(0xc000_5123)), Walk::Table(PhysicalAddress(0x7000)));
    let mut l2 = L2Table::new();
    l2.descriptors[5] = L2TableDescriptor::new(PhysicalAddress(0x9_9000));
    assert_eq!(l2.v2p(VirtualAddress(0xc000_5123)), Some(PhysicalAddress(0x9_9123)));
    assert_eq!(l2.v2p(VirtualAddress(0xc000_6123)), None);
}

#[test]
fn page_table_under_its_lock() {
    let mut t = PageTable::new();
    assert_eq!(t.v2p(0, VirtualAddress(0x1234_5678)), Walk::NotMapped);
}

#[test]
fn init_frames_start_on_a_sixteen_kilobyte_boundary() {
    for page in 1usize..9 {
        let pa = PhysicalAddress(page << 12);
        let f = init_frames(pa);
        assert_eq!(f[0].0 % 0x4000, 0, "from {:#x}", pa.0);
        for i in 0..4 {
            assert_eq!(f[i].0, f[0].0 + i * 4096);
        }
        let mut all: Vec<usize> = f.iter().map(|a| a.0).collect();
        all.sort();
        let want: Vec<usize> = (0..7).map(|i| pa.0 + i * 4096).collect();
        assert_eq!(all, want);
    }
    let f = init_frames(PhysicalAddress(0x1000));
    let got: Vec<usize> = f.iter().map(|a| a.0).collect();
    assert_eq!(got, vec![0x4000, 0x5000, 0x6000, 0x7000, 0x1000, 0x2000, 0x3000]);
}

struct Bump {
    next: usize,
    left: usize,
    freed: Vec<(usize, usize)>,
}

impl FrameAllocator for Bump {
    fn allocate(&mut self, num_frames: usize) -> Option<PhysicalAddress> {
        if num_frames > self.left {
            return None;
        }
        self.left -= num_frames;
        let a = self.next;
        self.next += num_frames << 12;
        Some(PhysicalAddress(a))
    }
    fn deallocate(&mut self, start: PhysicalAddress, num_frames: usize) {
        self.freed.push((start.0, num_frames));
    }
}

#[test]
fn get_init_frames_gives_back_the_two_it_does_not_need() {
    let mut fa = Bump { next: 0x3000, left: 7, freed: vec![] };
    let f = get_init_frames(&mut fa).unwrap();
    let got: Vec<usize> = f.iter().map(|a| a.0).collect();
    assert_eq!(got, vec![0x4000, 0x5000, 0x6000, 0x7000, 0x8000]);
    assert_eq!(fa.freed, vec![(0x9000, 1), (0x3000, 1)]);
    let mut empty = Bump { next: 0x3000, left: 6, freed: vec![] };
    assert!(get_init_frames(&mut empty).is_none());
}

struct Identity {
    mapped: Vec<(usize, usize, usize)>,
}

impl PVMapper for Identity {
    fn v2p(&self, v: VirtualAddress) -> Option<PhysicalAddress> {
        Some(PhysicalAddress(v.0))
    }
    fn p2v(&self, p: PhysicalAddress) -> Option<VirtualAddress> {
        Some(VirtualAddress(p.0))
    }
}

impl MemoryMapper<Bump> for Identity {
    fn map(&mut self, fa: &mut Bump, p: PhysicalAddress, v: VirtualAddress, size: MemorySize) -> Result<(), ()> {
        fa.allocate(1).ok_or(())?;
        self.mapped.push((p.0, v.0, to_bytes(size)));
        Ok(())
    }
    fn unmap(&mut self, _fa: &mut Bump, _v: VirtualAddress, _size: MemorySize) -> Result<(), ()> {
        Err(())
    }
    fn map_device(&mut self, fa: &mut Bump, p: PhysicalAddress, v: VirtualAddress, size: MemorySize) -> Result<(), ()> {
        self.map(fa, p, v, size)
    }
}

#[test]
fn memory_manager_draws_on_its_own_allocator() {
    let mut m = DefaultMemoryManagaer::new(
        Identity { mapped: vec![] },
        Bump { next: 0x1000, left: 1, freed: vec![] },
    );
    assert_eq!(m.map(PhysicalAddress(0x1000), VirtualAddress(0x8000), MemorySize::PageSizes(1)), Ok(()));
    // the allocator is empty now
    assert_eq!(m.map_device(PhysicalAddress(0x2000), VirtualAddress(0x9000), MemorySize::PageSizes(1)), Err(()));
    assert_eq!(m.unmap(VirtualAddress(0x8000), MemorySize::PageSizes(1)), Err(()));
    assert_eq!(m.v2p(VirtualAddress(0x44)), Some(PhysicalAddress(0x44)));
    assert_eq!(m.p2v(PhysicalAddress(0x44)), Some(VirtualAddress(0x44)));
}
