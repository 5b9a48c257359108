//! The computations of the boot sequence: memory totals from the
//! bootloader's map, the memory regions it describes, and where the
//! initial heap goes.

use vstd::prelude::*;
use crate::memory::pmm::{MemoryMapEntry, MemoryMapEntryKind};
use crate::memory_regions::{MemoryRegion, MemoryRegionManager, MemoryRegionType};

verus! {

/// Pages of the initial heap.
pub const HEAP_PAGES: usize = 3;

/// Bytes of a page.
pub const BOOT_PAGE_SIZE: usize = 4096;

/// Sum of the lengths of the entries; of the usable ones when `usable_only`.
pub open spec fn spec_map_total(es: Seq<MemoryMapEntry>, usable_only: bool) -> int
    decreases es.len(),
{
    if es.len() == 0 {
        0
    } else {
        spec_map_total(es.drop_last(), usable_only) + if !usable_only || es.last().kind
            == MemoryMapEntryKind::Usable {
            es.last().length as int
        } else {
            0
        }
    }
}

proof fn lemma_map_total_monotone(es: Seq<MemoryMapEntry>, k: int)
    requires
        0 <= k <= es.len(),
    ensures
        spec_map_total(es.take(k), true) <= spec_map_total(es.take(k), false),
        spec_map_total(es.take(k), false) <= spec_map_total(es, false),
    decreases es.len() - k,
{
    lemma_usable_le_total(es.take(k));
    if k < es.len() {
        lemma_map_total_monotone(es, k + 1);
        assert(es.take(k + 1).drop_last() =~= es.take(k));
    } else {
        assert(es.take(k) =~= es);
    }
}

proof fn lemma_usable_le_total(es: Seq<MemoryMapEntry>)
    ensures
        spec_map_total(es, true) <= spec_map_total(es, false),
    decreases es.len(),
{
    if es.len() > 0 {
        lemma_usable_le_total(es.drop_last());
    }
}

/// The total and the usable bytes the map describes.
pub fn memory_totals(entries: &Vec<MemoryMapEntry>) -> (r: (u64, u64))
    requires
        spec_map_total(entries@, false) <= u64::MAX,
    ensures
        r.0 == spec_map_total(entries@, false),
        r.1 == spec_map_total(entries@, true),
{
    let mut total: u64 = 0;
    let mut usable: u64 = 0;
    let mut i: usize = 0;
    while i < entries.len()
        invariant
            0 <= i <= entries@.len(),
            spec_map_total(entries@, false) <= u64::MAX,
            total == spec_map_total(entries@.take(i as int), false),
            usable == spec_map_total(entries@.take(i as int), true),
        decreases entries@.len() - i,
    {
        proof {
            assert(entries@.take(i as int + 1).drop_last() =~= entries@.take(i as int));
            lemma_map_total_monotone(entries@, i as int + 1);
        }
        let e = entries[i];
        total = total + e.length;
        if e.kind == MemoryMapEntryKind::Usable {
            usable = usable + e.length;
        }
        i = i + 1;
    }
    assert(entries@.take(entries@.len() as int) =~= entries@);
    (total, usable)
}

/// The region type of a map entry: usable memory is available, the
/// framebuffer and the kernel image are kernel data, the rest reserved.
pub open spec fn spec_region_type(kind: MemoryMapEntryKind) -> MemoryRegionType {
    match kind {
        MemoryMapEntryKind::Usable => MemoryRegionType::Available,
        MemoryMapEntryKind::Framebuffer | MemoryMapEntryKind::ExecutableAndModules => MemoryRegionType::KernelData,
        _ => MemoryRegionType::Reserved,
    }
}

/// The region type of a map entry.
pub fn region_type_for(kind: MemoryMapEntryKind) -> (r: MemoryRegionType)
    ensures
        r == spec_region_type(kind),
{
    match kind {
        MemoryMapEntryKind::Usable => MemoryRegionType::Available,
        MemoryMapEntryKind::Framebuffer | MemoryMapEntryKind::ExecutableAndModules => MemoryRegionType::KernelData,
        _ => MemoryRegionType::Reserved,
    }
}

/// The region a map entry describes.
pub open spec fn spec_entry_region(e: MemoryMapEntry) -> MemoryRegion {
    MemoryRegion { start: e.base, size: e.length, region_type: spec_region_type(e.kind) }
}

/// Records the regions of the map's entries, in order, until the manager
/// is full.
pub fn record_regions(manager: &mut MemoryRegionManager, entries: &Vec<MemoryMapEntry>)
    requires
        old(manager).wf(),
    ensures
        final(manager).wf(),
        ({
            let room = (32 - old(manager)@.len()) as int;
            let n = if entries@.len() < room { entries@.len() as int } else { room };
            final(manager)@ == old(manager)@ + entries@.take(n).map_values(|e: MemoryMapEntry| spec_entry_region(e))
        }),
{
    let ghost start = manager@;
    proof {
        manager.lemma_len_bound();
    }
    let ghost room = (32 - start.len()) as int;
    let ghost n = if entries@.len() < room { entries@.len() as int } else { room };
    let mut i: usize = 0;
    assert(entries@.take(0).map_values(|e: MemoryMapEntry| spec_entry_region(e)) =~= Seq::<MemoryRegion>::empty());
    assert(start + Seq::<MemoryRegion>::empty() =~= start);
    while i < entries.len()
        invariant
            0 <= i <= entries@.len(),
            manager.wf(),
            start.len() <= 32,
            i + start.len() <= 32,
            manager@.len() == start.len() + i,
            room == 32 - start.len(),
            n == (if entries@.len() < room { entries@.len() as int } else { room }),
            manager@ == start + entries@.take(i as int).map_values(|e: MemoryMapEntry| spec_entry_region(e)),
        ensures
            manager.wf(),
            manager@ == start + entries@.take(n).map_values(|e: MemoryMapEntry| spec_entry_region(e)),
        decreases entries@.len() - i,
    {
        let e = entries[i];
        let region = MemoryRegion::new(e.base, e.length, region_type_for(e.kind));
        let ghost before = manager@;
        if !manager.add_region(region) {
            break;
        }
        assert(entries@.take(i as int + 1).map_values(|e: MemoryMapEntry| spec_entry_region(e)) =~= entries@.take(
            i as int,
        ).map_values(|e: MemoryMapEntry| spec_entry_region(e)).push(spec_entry_region(e)));
        assert(manager@ =~= start + entries@.take(i as int + 1).map_values(|e: MemoryMapEntry| spec_entry_region(e)));
        i = i + 1;
    }
}

/// Where the initial heap goes: its virtual start (the first heap page's
/// physical address in the higher-half direct map) and its size.
pub fn heap_layout(hhdm_offset: u64, heap_start_phys: u64) -> (r: (u64, usize))
    requires
        hhdm_offset + heap_start_phys <= u64::MAX,
    ensures
        r == ((hhdm_offset + heap_start_phys) as u64, (BOOT_PAGE_SIZE * HEAP_PAGES) as usize),
{
    (hhdm_offset + heap_start_phys, BOOT_PAGE_SIZE * HEAP_PAGES)
}

} // verus!
