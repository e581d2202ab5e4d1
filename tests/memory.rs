use rust_os::memory::{lvl_4_tbl_virt_addr, BootInfoFrameAllocator, MemoryRegion, PhysFrame, RegionKind};

fn region(start: u64, end: u64, kind: RegionKind) -> MemoryRegion {
    MemoryRegion { start, end, kind }
}

fn frame(start: u64) -> Option<PhysFrame> {
    Some(PhysFrame { start })
}

#[test]
fn allocates_usable_frames_in_map_order() {
    let map = vec![
        region(0x1000, 0x3000, RegionKind::Usable),
        region(0x3000, 0x5000, RegionKind::Reserved),
        region(0x8000, 0x9000, RegionKind::Usable),
        region(0x9000, 0xa000, RegionKind::Other),
    ];
    let mut alloc = BootInfoFrameAllocator::init(map);
    assert_eq!(alloc.allocate_frame(), frame(0x1000));
    assert_eq!(alloc.allocate_frame(), frame(0x2000));
    assert_eq!(alloc.allocate_frame(), frame(0x8000));
    assert_eq!(alloc.allocate_frame(), None);
    assert_eq!(alloc.allocate_frame(), None);
}

#[test]
fn unaligned_region_steps_from_its_start() {
    let mut alloc = BootInfoFrameAllocator::init(vec![region(0x1800, 0x3800, RegionKind::Usable)]);
    assert_eq!(alloc.allocate_frame(), frame(0x1000));
    assert_eq!(alloc.allocate_frame(), frame(0x2000));
    assert_eq!(alloc.allocate_frame(), None);
}

#[test]
fn empty_map_has_no_frames() {
    let mut alloc = BootInfoFrameAllocator::init(vec![]);
    assert_eq!(alloc.allocate_frame(), None);
}

#[test]
fn empty_and_reserved_regions_give_nothing() {
    let mut alloc = BootInfoFrameAllocator::init(vec![
        region(0x5000, 0x5000, RegionKind::Usable),
        region(0x9000, 0x4000, RegionKind::Usable),
        region(0x0, 0x100000, RegionKind::Reserved),
    ]);
    assert_eq!(alloc.allocate_frame(), None);
}

#[test]
fn region_at_top_of_address_space() {
    let mut alloc = BootInfoFrameAllocator::init(vec![region(
        0xffff_ffff_ffff_e000,
        0xffff_ffff_ffff_ffff,
        RegionKind::Usable,
    )]);
    assert_eq!(alloc.allocate_frame(), frame(0xffff_ffff_ffff_e000));
    assert_eq!(alloc.allocate_frame(), frame(0xffff_ffff_ffff_f000));
    assert_eq!(alloc.allocate_frame(), None);
}

#[test]
fn exhaustion_after_every_usable_frame() {
    let mut alloc = BootInfoFrameAllocator::init(vec![
        region(0x0, 0x10000, RegionKind::Usable),
        region(0x20000, 0x22000, RegionKind::Usable),
    ]);
    for i in 0..16u64 {
        assert_eq!(alloc.allocate_frame(), frame(i * 0x1000));
    }
    assert_eq!(alloc.allocate_frame(), frame(0x20000));
    assert_eq!(alloc.allocate_frame(), frame(0x21000));
    assert_eq!(alloc.allocate_frame(), None);
}

#[test]
fn table_address_adds_offset() {
    let f = PhysFrame { start: 0x1000 };
    assert_eq!(lvl_4_tbl_virt_addr(0x100_0000_0000, f), Some(0x100_0000_1000));
}

#[test]
fn table_address_sign_extends_bit_47() {
    let f = PhysFrame { start: 0x2000 };
    assert_eq!(lvl_4_tbl_virt_addr(0x0000_8000_0000_0000, f), Some(0xffff_8000_0000_2000));
    assert_eq!(lvl_4_tbl_virt_addr(0xffff_8000_0000_0000, f), Some(0xffff_8000_0000_2000));
}

#[test]
fn table_address_rejects_bad_addresses() {
    let f = PhysFrame { start: 0x1000 };
    assert_eq!(lvl_4_tbl_virt_addr(0x0001_0000_0000_0000, f), None);
    assert_eq!(lvl_4_tbl_virt_addr(u64::MAX, f), None);
}

#[test]
fn trivial_assertion() {
    assert_eq!(1, 1);
}
