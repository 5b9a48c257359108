//! Memory management: addresses, paging structures, physical page
//! allocation, heap free lists, protection, copy-on-write, mmap
//! bookkeeping, demand paging, LRU replacement, swap and usage counters.

use vstd::prelude::*;

pub mod addr;
pub mod paging;
pub mod cow;
pub mod protection;
pub mod stats;
pub mod demand_paging;
pub mod mmap;
pub mod swap;
pub mod heap;
pub mod pmm;
pub mod mapper;

use pmm::{MemoryMapEntry, PhysicalMemoryManager};

verus! {

/// Builds the physical page allocator from the bootloader's memory map.
pub fn init_pmm(pmm: &mut PhysicalMemoryManager, memmap: &Vec<MemoryMapEntry>)
    requires
        pmm::spec_memory_map_ok(memmap@),
    ensures
        final(pmm).wf(),
        final(pmm).spec_total() == pmm::spec_total_pages(memmap@),
{
    pmm.init(memmap);
}

/// Allocates a physical frame (the lowest free page).
pub fn alloc_frame(pmm: &mut PhysicalMemoryManager) -> (r: Option<u64>)
    requires
        old(pmm).wf(),
    ensures
        final(pmm).wf(),
        final(pmm).spec_total() == old(pmm).spec_total(),
        r is None <==> (old(pmm).spec_free() == 0 || forall|q: int| 0 <= q < old(pmm).spec_total() ==> old(pmm).page_used(q)),
        match r {
            Some(a) => {
                let p = a as int / 4096;
                &&& a % 4096 == 0
                &&& p < old(pmm).spec_total()
                &&& !old(pmm).page_used(p)
                &&& forall|q: int| 0 <= q < p ==> old(pmm).page_used(q)
                &&& final(pmm).spec_free() == old(pmm).spec_free() - 1
                &&& forall|q: int| 0 <= q < old(pmm).spec_bitmap().len() * 64 ==> #[trigger] final(pmm).page_used(q)
                    == (q == p || old(pmm).page_used(q))
            },
            None => final(pmm).spec_free() == old(pmm).spec_free() && final(pmm).spec_bitmap() == old(pmm).spec_bitmap(),
        },
{
    let r = pmm.alloc_page();
    proof {
        old(pmm).lemma_bitmap_covers_total();
        if let Some(a) = r {
            assert(a as int / 4096 < old(pmm).spec_bitmap().len() * 64);
        }
    }
    r
}

/// Frees a physical frame.
pub fn free_frame(pmm: &mut PhysicalMemoryManager, addr: u64)
    requires
        old(pmm).wf(),
        old(pmm).spec_free() < usize::MAX,
    ensures
        final(pmm).wf(),
        addr % 4096 == 0 && (addr as int / 4096) < old(pmm).spec_total() && old(pmm).page_used(addr as int / 4096)
            ==> final(pmm).spec_free() == old(pmm).spec_free() + 1 && !final(pmm).page_used(addr as int / 4096),
{
    pmm.free_page(addr);
    proof {
        let p = addr as int / 4096;
        old(pmm).lemma_bitmap_covers_total();
        if addr % 4096 == 0 && p < old(pmm).spec_total() && old(pmm).page_used(p) {
            assert(p < old(pmm).spec_bitmap().len() * 64);
        }
    }
}

} // verus!
