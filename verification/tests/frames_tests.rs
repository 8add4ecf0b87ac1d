use lessbad::frames::{valid_memory_map, BootFrameAllocator, MemoryRegion, MAX_REGIONS};

fn region(start: u64, end: u64, usable: bool) -> MemoryRegion {
    MemoryRegion { start, end, usable }
}

fn allocator(map: Vec<MemoryRegion>) -> BootFrameAllocator {
    let mut regions = [region(0, 0, false); MAX_REGIONS];
    for (i, r) in map.iter().enumerate() {
        regions[i] = *r;
    }
    assert!(valid_memory_map(&map));
    BootFrameAllocator::init(regions, map.len())
}

fn sample_map() -> Vec<MemoryRegion> {
    vec![
        region(0x0, 0x1000, false),
        region(0x1000, 0x3000, true),
        region(0x3000, 0x5000, false),
        region(0x5000, 0x6000, true),
    ]
}

#[test]
fn frames_come_from_usable_regions_in_order() {
    let mut a = allocator(sample_map());
    assert_eq!(a.allocate_frame(), Some(0x1000));
    assert_eq!(a.allocate_frame(), Some(0x2000));
    assert_eq!(a.allocate_frame(), Some(0x5000));
    assert_eq!(a.allocate_frame(), None);
    assert_eq!(a.allocate_frame(), None);
}

#[test]
fn usable_frames_lists_all() {
    let a = allocator(sample_map());
    assert_eq!(a.usable_frames(), vec![0x1000, 0x2000, 0x5000]);
}

#[test]
fn unaligned_region_frames_are_aligned_down() {
    let a = allocator(vec![region(0x1800, 0x3900, true)]);
    assert_eq!(a.usable_frames(), vec![0x1000, 0x2000, 0x3000]);
}

#[test]
fn empty_and_inverted_regions_give_nothing() {
    let mut a = allocator(vec![region(0x5000, 0x5000, true), region(0x9000, 0x8000, true)]);
    assert_eq!(a.usable_frames(), Vec::<u64>::new());
    assert_eq!(a.allocate_frame(), None);
}

#[test]
fn no_frame_handed_out_twice() {
    let mut a = allocator(vec![region(0x1000, 0x4000, true), region(0x10000, 0x12000, true)]);
    let mut seen = Vec::new();
    while let Some(f) = a.allocate_frame() {
        assert!(!seen.contains(&f));
        assert_eq!(f % 4096, 0);
        seen.push(f);
    }
    assert_eq!(seen, vec![0x1000, 0x2000, 0x3000, 0x10000, 0x11000]);
}

#[test]
fn requests_count_every_call() {
    let mut a = allocator(vec![region(0x1000, 0x2000, true)]);
    assert_eq!(a.requests(), 0);
    assert_eq!(a.allocate_frame(), Some(0x1000));
    assert_eq!(a.allocate_frame(), None);
    assert_eq!(a.requests(), 2);
}

#[test]
fn entries_past_the_length_are_ignored() {
    let mut regions = [region(0, 0, false); MAX_REGIONS];
    regions[0] = region(0x1000, 0x2000, true);
    regions[1] = region(0x8000, 0x9000, true);
    let a = BootFrameAllocator::init(regions, 1);
    assert_eq!(a.usable_frames(), vec![0x1000]);
}

#[test]
fn map_above_physical_limit_is_invalid() {
    assert!(!valid_memory_map(&[region(0x1000, 0x20_0000_0000_0000, true)]));
    assert!(valid_memory_map(&[region(0x1000, 0x20_0000_0000_0000, false)]));
    assert!(valid_memory_map(&[region(0x1000, 0x10_0000_0000_0000, true)]));
}

#[test]
fn unaligned_neighbours_share_a_frame() {
    // Regions that split one frame both yield it: the no-repeat guarantee
    // holds for maps of frame-aligned, ascending regions.
    let mut a = allocator(vec![region(0x1000, 0x1800, true), region(0x1800, 0x2000, true)]);
    assert_eq!(a.allocate_frame(), Some(0x1000));
    assert_eq!(a.allocate_frame(), Some(0x1000));
    assert_eq!(a.allocate_frame(), None);
}
