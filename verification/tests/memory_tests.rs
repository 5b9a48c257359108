use fanga::memory::heap::HeapAllocator;
use fanga::memory::addr::{PhysAddr, VirtAddr};
use fanga::memory::cow::CowPageManager;
use fanga::memory::demand_paging::{DemandPagingManager, LruPageManager, PageState};
use fanga::memory::mmap::{MemoryMapping, MmapFlags, MmapManager, MmapProt};
use fanga::memory::paging::PageTableFlags;
use fanga::memory::protection::{GuardPageManager, MemoryProtection, MemoryProtectionManager, ProtectedRegion};
use fanga::memory::swap::SwapManager;

#[test]
fn test_cow_page_tracking() {
    let mut cow = CowPageManager::new();
    let phys_addr = PhysAddr::new(0x1000);

    assert_eq!(cow.get_ref_count(phys_addr), 0);
    assert!(!cow.is_shared(phys_addr));

    cow.add_page(phys_addr);
    assert_eq!(cow.get_ref_count(phys_addr), 1);
    assert!(!cow.is_shared(phys_addr));

    cow.mark_cow(phys_addr);
    assert_eq!(cow.get_ref_count(phys_addr), 2);
    assert!(cow.is_shared(phys_addr));

    let count = cow.release_cow(phys_addr);
    assert_eq!(count, 1);
    assert!(!cow.is_shared(phys_addr));

    let count = cow.release_cow(phys_addr);
    assert_eq!(count, 0);
    assert_eq!(cow.get_ref_count(phys_addr), 0);
}

#[test]
fn test_multiple_cow_pages() {
    let mut cow = CowPageManager::new();
    let page1 = PhysAddr::new(0x1000);
    let page2 = PhysAddr::new(0x2000);

    cow.add_page(page1);
    cow.add_page(page2);

    assert_eq!(cow.get_ref_count(page1), 1);
    assert_eq!(cow.get_ref_count(page2), 1);

    cow.mark_cow(page1);
    cow.mark_cow(page1);

    assert_eq!(cow.get_ref_count(page1), 3);
    assert_eq!(cow.get_ref_count(page2), 1);

    cow.release_cow(page1);
    cow.release_cow(page1);

    assert_eq!(cow.get_ref_count(page1), 1);
    assert_eq!(cow.get_ref_count(page2), 1);
}

#[test]
fn cow_mark_untracked_page_starts_at_two() {
    let mut cow = CowPageManager::new();
    let p = PhysAddr::new(0x5000);
    assert_eq!(cow.mark_cow(p), 2);
    assert_eq!(cow.release_cow(p), 1);
    assert_eq!(cow.release_cow(p), 0);
    assert_eq!(cow.release_cow(p), 0);
}

#[test]
fn test_lru_page_manager() {
    let mut lru = LruPageManager::new(3);

    lru.access_page(VirtAddr::new(0x1000), PhysAddr::new(0x1000));
    lru.access_page(VirtAddr::new(0x2000), PhysAddr::new(0x2000));
    lru.access_page(VirtAddr::new(0x3000), PhysAddr::new(0x3000));

    assert_eq!(lru.page_count(), 3);

    let (virt, _) = lru.get_lru_page().unwrap();
    assert_eq!(virt.as_u64(), 0x1000);

    lru.access_page(VirtAddr::new(0x1000), PhysAddr::new(0x1000));

    let (virt, _) = lru.get_lru_page().unwrap();
    assert_eq!(virt.as_u64(), 0x2000);

    lru.access_page(VirtAddr::new(0x4000), PhysAddr::new(0x4000));
    assert_eq!(lru.page_count(), 3);
    assert!(!lru.contains(VirtAddr::new(0x2000)));
}

#[test]
fn lru_remove_page_forgets_it() {
    let mut lru = LruPageManager::new(4);
    lru.access_page(VirtAddr::new(0x1000), PhysAddr::new(0xa000));
    lru.access_page(VirtAddr::new(0x2000), PhysAddr::new(0xb000));
    lru.remove_page(VirtAddr::new(0x1000));
    assert!(!lru.contains(VirtAddr::new(0x1000)));
    assert_eq!(lru.page_count(), 1);
    let (v, p) = lru.get_lru_page().unwrap();
    assert_eq!(v.as_u64(), 0x2000);
    assert_eq!(p.as_u64(), 0xb000);
}

#[test]
fn test_demand_paging_manager() {
    let mut manager = DemandPagingManager::new();

    manager.reserve_pages(VirtAddr::new(0x1000), 3);

    assert_eq!(manager.get_page_state(VirtAddr::new(0x1000)), PageState::NotAllocated);
    assert_eq!(manager.get_page_state(VirtAddr::new(0x2000)), PageState::NotAllocated);
    assert_eq!(manager.get_page_state(VirtAddr::new(0x3000)), PageState::NotAllocated);

    manager.allocate_page(VirtAddr::new(0x1000));
    assert_eq!(manager.get_page_state(VirtAddr::new(0x1000)), PageState::InMemory);

    assert!(!manager.should_allocate_on_fault(VirtAddr::new(0x1000)));
    assert!(manager.should_allocate_on_fault(VirtAddr::new(0x2000)));
}

#[test]
fn test_page_state_transitions() {
    let mut manager = DemandPagingManager::new();
    let addr = VirtAddr::new(0x1000);

    assert_eq!(manager.get_page_state(addr), PageState::NotAllocated);

    manager.allocate_page(addr);
    assert_eq!(manager.get_page_state(addr), PageState::InMemory);

    manager.mark_swapped_out(addr);
    assert_eq!(manager.get_page_state(addr), PageState::SwappedOut);

    manager.allocate_page(addr);
    assert_eq!(manager.get_page_state(addr), PageState::InMemory);
}

#[test]
fn test_lru_stats() {
    let mut lru = LruPageManager::new(10);

    lru.access_page(VirtAddr::new(0x1000), PhysAddr::new(0x1000));
    lru.access_page(VirtAddr::new(0x1000), PhysAddr::new(0x1000));
    lru.access_page(VirtAddr::new(0x2000), PhysAddr::new(0x2000));

    let stats = lru.get_stats();
    assert_eq!(stats.tracked_pages, 2);
    assert_eq!(stats.max_pages, 10);
    assert_eq!(stats.total_accesses, 3);
}

#[test]
fn test_demand_paging_stats() {
    let mut manager = DemandPagingManager::new();

    manager.reserve_pages(VirtAddr::new(0x1000), 5);
    manager.allocate_page(VirtAddr::new(0x1000));
    manager.allocate_page(VirtAddr::new(0x2000));
    manager.mark_swapped_out(VirtAddr::new(0x3000));

    let stats = manager.get_stats();
    assert_eq!(stats.not_allocated, 2);
    assert_eq!(stats.in_memory, 2);
    assert_eq!(stats.swapped_out, 1);
}

#[test]
fn demand_paging_remove_page_returns_to_not_allocated() {
    let mut manager = DemandPagingManager::new();
    let addr = VirtAddr::new(0x7000);
    manager.allocate_page(addr);
    manager.remove_page(addr);
    assert_eq!(manager.get_page_state(addr), PageState::NotAllocated);
    assert!(manager.should_allocate_on_fault(addr));
}

#[test]
fn test_mmap_flags() {
    let flags = MmapFlags::private().with(MmapFlags::anonymous());
    assert!(flags.contains(MmapFlags::private()));
    assert!(flags.contains(MmapFlags::anonymous()));
    assert!(!flags.contains(MmapFlags::shared()));
}

#[test]
fn test_mmap_prot() {
    let prot = MmapProt::read().with(MmapProt::write());
    assert!(prot.contains(MmapProt::read()));
    assert!(prot.contains(MmapProt::write()));
    assert!(!prot.contains(MmapProt::execute()));
}

#[test]
fn test_memory_mapping() {
    let start = VirtAddr::new(0x10000);
    let size = 0x2000;
    let mapping = MemoryMapping::new(
        start,
        size,
        MmapProt::read().with(MmapProt::write()),
        MmapFlags::private().with(MmapFlags::anonymous()),
    );

    assert_eq!(mapping.start, start);
    assert_eq!(mapping.size, size);
    assert!(mapping.contains(VirtAddr::new(0x10000)));
    assert!(mapping.contains(VirtAddr::new(0x11000)));
    assert!(!mapping.contains(VirtAddr::new(0x12000)));
}

#[test]
fn test_mmap_manager_automatic() {
    let mut manager = MmapManager::new(0x1000_0000);

    let addr1 = manager.mmap(
        0,
        0x1000,
        MmapProt::read().with(MmapProt::write()),
        MmapFlags::private().with(MmapFlags::anonymous()),
    );
    assert!(addr1.is_some());

    let addr2 = manager.mmap(0, 0x1000, MmapProt::read(), MmapFlags::private().with(MmapFlags::anonymous()));
    assert!(addr2.is_some());

    assert_ne!(addr1.unwrap().as_u64(), addr2.unwrap().as_u64());
}

#[test]
fn test_mmap_manager_fixed() {
    let mut manager = MmapManager::new(0x1000_0000);

    let addr = manager.mmap(
        0x2000_0000,
        0x1000,
        MmapProt::read().with(MmapProt::write()),
        MmapFlags::private().with(MmapFlags::anonymous()).with(MmapFlags::fixed()),
    );
    assert_eq!(addr.unwrap().as_u64(), 0x2000_0000);

    let addr2 = manager.mmap(
        0x2000_0000,
        0x1000,
        MmapProt::read(),
        MmapFlags::private().with(MmapFlags::anonymous()).with(MmapFlags::fixed()),
    );
    assert!(addr2.is_none());
}

#[test]
fn test_munmap() {
    let mut manager = MmapManager::new(0x1000_0000);

    let addr = manager
        .mmap(0, 0x1000, MmapProt::read().with(MmapProt::write()), MmapFlags::private().with(MmapFlags::anonymous()))
        .unwrap();

    assert_eq!(manager.count(), 1);

    let result = manager.munmap(addr.as_u64(), 0x1000);
    assert!(result);
    assert_eq!(manager.count(), 0);
}

#[test]
fn test_find_mapping() {
    let mut manager = MmapManager::new(0x1000_0000);

    let addr = manager
        .mmap(0, 0x2000, MmapProt::read().with(MmapProt::write()), MmapFlags::private().with(MmapFlags::anonymous()))
        .unwrap();

    assert!(manager.find_mapping(addr).is_some());
    assert!(manager.find_mapping(VirtAddr::new(addr.as_u64() + 0x1000)).is_some());
    assert!(manager.find_mapping(VirtAddr::new(addr.as_u64() + 0x3000)).is_none());
}

#[test]
fn mmap_zero_length_is_refused() {
    let mut manager = MmapManager::new(0x1000_0000);
    assert!(manager.mmap(0, 0, MmapProt::read(), MmapFlags::private()).is_none());
    assert_eq!(manager.count(), 0);
}

#[test]
fn test_memory_protection_flags() {
    assert!(MemoryProtection::read_only().allows_read());
    assert!(!MemoryProtection::read_only().allows_write());
    assert!(!MemoryProtection::read_only().allows_exec());

    assert!(MemoryProtection::read_write().allows_read());
    assert!(MemoryProtection::read_write().allows_write());
    assert!(!MemoryProtection::read_write().allows_exec());

    assert!(MemoryProtection::read_exec().allows_read());
    assert!(!MemoryProtection::read_exec().allows_write());
    assert!(MemoryProtection::read_exec().allows_exec());
}

#[test]
fn test_protection_to_page_flags() {
    let prot = MemoryProtection::read_only();
    let flags = prot.to_page_flags();
    assert!(flags.contains(PageTableFlags::present()));
    assert!(!flags.contains(PageTableFlags::writable()));
    assert!(flags.contains(PageTableFlags::no_execute()));

    let prot = MemoryProtection::read_write();
    let flags = prot.to_page_flags();
    assert!(flags.contains(PageTableFlags::present()));
    assert!(flags.contains(PageTableFlags::writable()));
}

#[test]
fn test_guard_page_manager() {
    let mut manager = GuardPageManager::new();
    let addr = VirtAddr::new(0x1000);

    assert!(!manager.is_guard_page(addr));
    assert_eq!(manager.count(), 0);

    manager.add_guard_page(addr).unwrap();
    assert!(manager.is_guard_page(addr));
    assert_eq!(manager.count(), 1);

    assert!(manager.is_guard_page(VirtAddr::new(0x1500)));

    manager.remove_guard_page(addr);
    assert!(!manager.is_guard_page(addr));
    assert_eq!(manager.count(), 0);
}

#[test]
fn test_guard_page_alignment() {
    let mut manager = GuardPageManager::new();
    let unaligned = VirtAddr::new(0x1001);

    let result = manager.add_guard_page(unaligned);
    assert!(result.is_err());
}

#[test]
fn test_protected_region() {
    let region = ProtectedRegion::new(VirtAddr::new(0x1000), 0x2000, MemoryProtection::read_only(), "test");

    assert_eq!(region.start.as_u64(), 0x1000);
    assert_eq!(region.size, 0x2000);
    assert_eq!(region.end().as_u64(), 0x3000);

    assert!(region.contains(VirtAddr::new(0x1000)));
    assert!(region.contains(VirtAddr::new(0x2000)));
    assert!(!region.contains(VirtAddr::new(0x3000)));
}

#[test]
fn test_memory_protection_manager() {
    let mut manager = MemoryProtectionManager::new();

    let guard_addr = VirtAddr::new(0x1000);
    manager.add_guard_page(guard_addr).unwrap();

    assert!(!manager.check_access(guard_addr, false, false));
    assert!(!manager.check_access(guard_addr, true, false));

    let region = ProtectedRegion::new(VirtAddr::new(0x2000), 0x1000, MemoryProtection::read_only(), "test");
    manager.add_region(region);

    assert!(manager.check_access(VirtAddr::new(0x2000), false, false));
    assert!(!manager.check_access(VirtAddr::new(0x2000), true, false));
}

#[test]
fn protection_manager_denies_unprotected_addresses() {
    let manager = MemoryProtectionManager::new();
    assert!(!manager.check_access(VirtAddr::new(0x9000), false, false));
}

#[test]
fn test_swap_manager_creation() {
    let manager = SwapManager::new(10);
    assert_eq!(manager.free_count(), 10);
    assert_eq!(manager.used_count(), 0);
    assert!(manager.has_free_space());
}

#[test]
fn test_swap_slot_allocation() {
    let mut manager = SwapManager::new(5);

    let slot1 = manager.alloc_slot();
    assert!(slot1.is_some());
    assert_eq!(manager.free_count(), 4);

    let slot2 = manager.alloc_slot();
    assert!(slot2.is_some());
    assert_ne!(slot1, slot2);
    assert_eq!(manager.free_count(), 3);

    manager.free_slot(slot1.unwrap());
    assert_eq!(manager.free_count(), 4);
}

#[test]
fn test_swap_exhaustion() {
    let mut manager = SwapManager::new(2);

    let slot1 = manager.alloc_slot();
    let slot2 = manager.alloc_slot();
    let slot3 = manager.alloc_slot();

    assert!(slot1.is_some());
    assert!(slot2.is_some());
    assert!(slot3.is_none());
    assert!(!manager.has_free_space());
}

#[test]
fn test_swap_operations() {
    let mut manager = SwapManager::new(10);
    let virt = VirtAddr::new(0x1000);
    let phys = PhysAddr::new(0x10000);

    assert!(!manager.is_swapped(virt));

    let slot = manager.swap_out(virt, phys);
    assert!(slot.is_some());

    assert!(manager.is_swapped(virt));
    assert_eq!(manager.used_count(), 1);

    let slot = manager.get_swap_slot(virt);
    assert!(slot.is_some());

    let success = manager.swap_in(virt, phys);
    assert!(success);

    assert!(!manager.is_swapped(virt));
    assert_eq!(manager.used_count(), 0);
}

#[test]
fn test_swap_stats() {
    let mut manager = SwapManager::new(10);
    let virt = VirtAddr::new(0x1000);
    let phys = PhysAddr::new(0x10000);

    let stats = manager.get_stats();
    assert_eq!(stats.total_slots, 10);
    assert_eq!(stats.free_slots, 10);
    assert_eq!(stats.used_slots, 0);
    assert_eq!(stats.swapped_pages, 0);

    manager.swap_out(virt, phys).unwrap();

    let stats = manager.get_stats();
    assert_eq!(stats.free_slots, 9);
    assert_eq!(stats.used_slots, 1);
    assert_eq!(stats.swapped_pages, 1);
}

#[test]
fn swap_in_of_page_not_swapped_fails() {
    let mut manager = SwapManager::new(1);
    assert!(!manager.swap_in(VirtAddr::new(0x1000), PhysAddr::new(0x2000)));
    assert_eq!(manager.free_count(), 1);
}

#[test]
fn virt_addr_new_truncate_gives_canonical_form() {
    let low = VirtAddr::new_truncate(0x0001_0000_0000_1000);
    assert_eq!(low.as_u64(), 0x1000);
    assert!(low.is_canonical());
    let high = VirtAddr::new_truncate(0x0000_8000_0000_0000);
    assert_eq!(high.as_u64(), 0xFFFF_8000_0000_0000);
    assert!(high.is_canonical());
    let kept = VirtAddr::new_truncate(0xFFFF_8000_0000_1234);
    assert_eq!(kept.as_u64(), 0xFFFF_8000_0000_1234);
    assert_eq!(VirtAddr::new_truncate(0x7FFF_FFFF_F000).as_u64(), 0x7FFF_FFFF_F000);
}

#[test]
fn lru_access_moves_page_to_back_and_evicts_front_only() {
    let mut lru = LruPageManager::new(3);
    for a in [0x1000u64, 0x2000, 0x3000] {
        lru.access_page(VirtAddr::new(a), PhysAddr::new(a + 0x10_0000));
    }
    // 2 is touched again: order becomes 1, 3, 2.
    lru.access_page(VirtAddr::new(0x2000), PhysAddr::new(0xdead_0000));
    assert_eq!(lru.page_count(), 3);
    assert_eq!(lru.get_lru_page().unwrap().0.as_u64(), 0x1000);
    // A new page evicts only the front: order becomes 3, 2, 4.
    lru.access_page(VirtAddr::new(0x4000), PhysAddr::new(0x40_0000));
    assert_eq!(lru.page_count(), 3);
    assert!(!lru.contains(VirtAddr::new(0x1000)));
    assert!(lru.contains(VirtAddr::new(0x2000)));
    let (v, p) = lru.get_lru_page().unwrap();
    assert_eq!((v.as_u64(), p.as_u64()), (0x3000, 0x10_3000));
}

#[test]
fn heap_freed_memory_can_be_allocated_again() {
    let mut heap = HeapAllocator::new();
    heap.init(0x1_0000, 0x1000);
    let a = heap.allocate(0x1000, 8);
    assert_eq!(a, 0x1_0000);
    assert_eq!(heap.allocate(16, 8), 0);
    heap.dealloc(a, 0x1000);
    assert_eq!(heap.allocate(0x1000, 8), 0x1_0000);
    let b = heap.allocate(0, 8);
    assert_eq!(b, 1);
}

#[test]
fn heap_allocations_are_aligned_and_disjoint() {
    let mut heap = HeapAllocator::new();
    heap.init(0x2_0003, 0x2000);
    let a = heap.allocate(24, 64);
    let b = heap.allocate(100, 16);
    assert_eq!(a % 64, 0);
    assert_eq!(b % 16, 0);
    assert!(a + 24 <= b || b + 100 <= a);
}

#[test]
fn lru_access_count_counts_accesses() {
    let mut lru = LruPageManager::new(2);
    assert_eq!(lru.access_count(VirtAddr::new(0x1000)), None);
    lru.access_page(VirtAddr::new(0x1000), PhysAddr::new(0x9000));
    lru.access_page(VirtAddr::new(0x1000), PhysAddr::new(0x9000));
    assert_eq!(lru.access_count(VirtAddr::new(0x1000)), Some(2));
}

#[test]
fn heap_dealloc_merges_neighbours() {
    let mut heap = HeapAllocator::new();
    heap.init(0x3_0000, 0x300);
    let a = heap.allocate(0x100, 8);
    let b = heap.allocate(0x100, 8);
    let c = heap.allocate(0x100, 8);
    assert_eq!((a, b, c), (0x3_0000, 0x3_0100, 0x3_0200));
    heap.dealloc(a, 0x100);
    heap.dealloc(c, 0x100);
    // The middle range touches both freed blocks: all three merge.
    heap.dealloc(b, 0x100);
    assert_eq!(heap.allocate(0x300, 8), 0x3_0000);
}

#[test]
fn mmap_automatic_placements_are_aligned_and_distinct() {
    let mut manager = MmapManager::new(0x1000_0000);
    let flags = MmapFlags::private().with(MmapFlags::anonymous());
    let a = manager.mmap(0, 100, MmapProt::read(), flags).unwrap().as_u64();
    let b = manager.mmap(0, 5000, MmapProt::read(), flags).unwrap().as_u64();
    let c = manager.mmap(0, 1, MmapProt::read(), flags).unwrap().as_u64();
    assert_eq!((a, b, c), (0x1000_0000, 0x1000_1000, 0x1000_3000));
    assert_eq!(manager.count(), 3);
    let fixed = manager
        .mmap(0x2000_0123, 10, MmapProt::read(), flags.with(MmapFlags::fixed()))
        .unwrap()
        .as_u64();
    assert_eq!(fixed, 0x2000_0000);
}
