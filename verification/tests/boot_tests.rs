use fanga::boot::{heap_layout, memory_totals, record_regions, region_type_for};
use fanga::memory::pmm::{memory_map_ok, MemoryMapEntry, MemoryMapEntryKind};
use fanga::memory_regions::{MemoryRegionManager, MemoryRegionType};

#[test]
fn memory_totals_count_usable_separately() {
    let map = vec![
        MemoryMapEntry { base: 0, length: 0x1000, kind: MemoryMapEntryKind::Reserved },
        MemoryMapEntry { base: 0x1000, length: 0x3000, kind: MemoryMapEntryKind::Usable },
        MemoryMapEntry { base: 0x4000, length: 0x2000, kind: MemoryMapEntryKind::Framebuffer },
    ];
    assert_eq!(memory_totals(&map), (0x6000, 0x3000));
}

#[test]
fn regions_from_memory_map() {
    assert_eq!(region_type_for(MemoryMapEntryKind::Usable), MemoryRegionType::Available);
    assert_eq!(region_type_for(MemoryMapEntryKind::ExecutableAndModules), MemoryRegionType::KernelData);
    assert_eq!(region_type_for(MemoryMapEntryKind::AcpiNvs), MemoryRegionType::Reserved);
    let map: Vec<MemoryMapEntry> = (0..40)
        .map(|i| MemoryMapEntry { base: i * 0x1000, length: 0x1000, kind: MemoryMapEntryKind::Usable })
        .collect();
    let mut m = MemoryRegionManager::new();
    record_regions(&mut m, &map);
    assert_eq!(m.regions().len(), 32);
    assert_eq!(m.count_by_type(MemoryRegionType::Available), 32);
}

#[test]
fn heap_goes_into_direct_map() {
    assert_eq!(heap_layout(0xFFFF_8000_0000_0000, 0x20_0000), (0xFFFF_8000_0020_0000, 12288));
}

#[test]
fn memory_map_check_accepts_and_refuses() {
    let good = vec![
        MemoryMapEntry { base: 0x0, length: 0x1000, kind: MemoryMapEntryKind::Reserved },
        MemoryMapEntry { base: 0x10_0000, length: 0x10_0000, kind: MemoryMapEntryKind::Usable },
    ];
    assert!(memory_map_ok(&good));
    // No usable entry can hold the bitmap.
    let no_room = vec![MemoryMapEntry { base: 0x10_0000, length: 0x10_0000, kind: MemoryMapEntryKind::Reserved }];
    assert!(!memory_map_ok(&no_room));
    // A usable entry at address 0 gives no bitmap place either.
    let at_zero = vec![MemoryMapEntry { base: 0, length: 0x10_0000, kind: MemoryMapEntryKind::Usable }];
    assert!(!memory_map_ok(&at_zero));
    // An end that does not fit.
    let too_high = vec![MemoryMapEntry { base: u64::MAX - 10, length: 5, kind: MemoryMapEntryKind::Usable }];
    assert!(!memory_map_ok(&too_high));
    // A usable entry smaller than a page after rounding.
    let sliver = vec![
        MemoryMapEntry { base: 0x10_0000, length: 0x10_0000, kind: MemoryMapEntryKind::Usable },
        MemoryMapEntry { base: 0x20_0010, length: 0x10, kind: MemoryMapEntryKind::Usable },
    ];
    assert!(!memory_map_ok(&sliver));
}
