use fanga::memory::mapper::{PageTableMapper, PageTableMemory};
use fanga::memory::paging::PageTableFlags;
use fanga::memory::pmm::{MemoryMapEntry, MemoryMapEntryKind, PhysicalMemoryManager};

fn one_mib() -> PhysicalMemoryManager {
    let entries = vec![MemoryMapEntry { base: 0x1000, length: 0x10_0000, kind: MemoryMapEntryKind::Usable }];
    let mut pmm = PhysicalMemoryManager::new();
    pmm.init(&entries);
    pmm
}

#[test]
fn pmm_init_counts_pages_and_reserves_bitmap() {
    let pmm = one_mib();
    assert_eq!(pmm.total_pages(), 0x101);
    // pages 1..=256 are usable; page 1 holds the bitmap
    assert_eq!(pmm.free_pages(), 255);
    assert_eq!(pmm.used_pages(), 0x101 - 255);
}

#[test]
fn pmm_allocates_lowest_free_page() {
    let mut pmm = one_mib();
    assert_eq!(pmm.alloc_page(), Some(0x2000));
    assert_eq!(pmm.alloc_page(), Some(0x3000));
    pmm.free_page(0x2000);
    assert_eq!(pmm.alloc_page(), Some(0x2000));
    assert_eq!(pmm.free_pages(), 253);
}

#[test]
fn mapper_from_pml4_keeps_address() {
    let m = PageTableMapper::from_pml4(0x7000, 0xFFFF_8000_0000_0000);
    assert_eq!(m.pml4_addr(), 0x7000);
}

#[test]
fn mapper_map_translate_unmap() {
    let mut pmm = one_mib();
    let mut mem = PageTableMemory::new();
    let mut mapper = PageTableMapper::new(&mut mem, &mut pmm, 0).unwrap();
    assert_eq!(mapper.pml4_addr(), 0x2000);

    assert_eq!(mapper.translate(&mem, 0x40_0123), None);
    assert_eq!(mapper.map(&mut mem, 0x40_0000, 0x80_0000, PageTableFlags::writable(), &mut pmm), Ok(()));
    // three new tables were taken from the allocator
    assert_eq!(pmm.free_pages(), 255 - 4);
    assert_eq!(mapper.translate(&mem, 0x40_0123), Some(0x80_0123));
    assert_eq!(mapper.translate(&mem, 0x40_1000), None);

    assert_eq!(
        mapper.map(&mut mem, 0x40_0000, 0x90_0000, PageTableFlags::writable(), &mut pmm),
        Err("Virtual address already mapped")
    );
    // a neighbouring page reuses the tables
    assert_eq!(mapper.map(&mut mem, 0x40_1000, 0x90_0000, PageTableFlags::empty(), &mut pmm), Ok(()));
    assert_eq!(pmm.free_pages(), 255 - 4);
    assert_eq!(mapper.translate(&mem, 0x40_1FFF), Some(0x90_0FFF));

    assert_eq!(mapper.unmap(&mut mem, 0x40_0000), Ok(0x80_0000));
    assert_eq!(mapper.translate(&mem, 0x40_0000), None);
    assert_eq!(mapper.translate(&mem, 0x40_1000), Some(0x90_0000));
    assert_eq!(mapper.unmap(&mut mem, 0x40_0000), Err("PT entry not present"));
}

#[test]
fn mapper_errors() {
    let mut pmm = one_mib();
    let mut mem = PageTableMemory::new();
    let mut mapper = PageTableMapper::new(&mut mem, &mut pmm, 0).unwrap();
    assert_eq!(
        mapper.map(&mut mem, 0x40_0010, 0x80_0000, PageTableFlags::empty(), &mut pmm),
        Err("Addresses must be page-aligned")
    );
    assert_eq!(
        mapper.map(&mut mem, 0x40_0000, 0x80_0001, PageTableFlags::empty(), &mut pmm),
        Err("Addresses must be page-aligned")
    );
    assert_eq!(mapper.unmap(&mut mem, 0x123), Err("Address must be page-aligned"));
    assert_eq!(mapper.unmap(&mut mem, 0x40_0000), Err("PML4 entry not present"));
    mapper.map(&mut mem, 0x40_0000, 0x80_0000, PageTableFlags::empty(), &mut pmm).unwrap();
    // same PML4 and PDPT slots, another PD slot
    assert_eq!(mapper.unmap(&mut mem, 0x4000_0000 * 2), Err("PDPT entry not present"));
    assert_eq!(mapper.unmap(&mut mem, 0x80_0000), Err("PD entry not present"));
}

#[test]
fn mapper_runs_out_of_frames() {
    // one usable page beyond the bitmap's
    let entries = vec![MemoryMapEntry { base: 0x1000, length: 0x2000, kind: MemoryMapEntryKind::Usable }];
    let mut pmm = PhysicalMemoryManager::new();
    pmm.init(&entries);
    let mut mem = PageTableMemory::new();
    let mut mapper = PageTableMapper::new(&mut mem, &mut pmm, 0).unwrap();
    assert_eq!(
        mapper.map(&mut mem, 0x40_0000, 0x80_0000, PageTableFlags::empty(), &mut pmm),
        Err("Failed to allocate PDPT")
    );
}

#[test]
fn mapper_runs_out_of_frames_deeper() {
    for (length, expected) in [(0x3000u64, "Failed to allocate PD"), (0x4000u64, "Failed to allocate PT")] {
        let entries = vec![MemoryMapEntry { base: 0x1000, length, kind: MemoryMapEntryKind::Usable }];
        let mut pmm = PhysicalMemoryManager::new();
        pmm.init(&entries);
        let mut mem = PageTableMemory::new();
        let mut mapper = PageTableMapper::new(&mut mem, &mut pmm, 0).unwrap();
        assert_eq!(
            mapper.map(&mut mem, 0x40_0000, 0x80_0000, PageTableFlags::empty(), &mut pmm),
            Err(expected)
        );
        assert_eq!(pmm.free_pages(), 0);
    }
}
