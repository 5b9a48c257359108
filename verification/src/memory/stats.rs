//! Memory usage counters: physical memory, heap bytes, and the numbers of
//! heap and page allocations and frees.
//!
//! Counters wrap around on overflow, as atomic counters do.

use vstd::prelude::*;

verus! {

/// `x + y` wrapped into the range of `usize`.
pub open spec fn spec_wrapping_add(x: usize, y: usize) -> usize {
    if x + y > usize::MAX {
        (x + y - usize::MAX - 1) as usize
    } else {
        (x + y) as usize
    }
}

/// `x - y` wrapped into the range of `usize`.
pub open spec fn spec_wrapping_sub(x: usize, y: usize) -> usize {
    if x - y < 0 {
        (x - y + usize::MAX + 1) as usize
    } else {
        (x - y) as usize
    }
}

/// `x - y`, or 0 when `y > x`.
pub open spec fn spec_saturating_sub(x: usize, y: usize) -> usize {
    if x < y {
        0
    } else {
        (x - y) as usize
    }
}

/// Memory usage counters.
pub struct MemoryStats {
    total_physical: usize,
    used_physical: usize,
    total_heap: usize,
    used_heap: usize,
    heap_allocations: usize,
    heap_deallocations: usize,
    page_allocations: usize,
    page_deallocations: usize,
}

/// The counters of a `MemoryStats`, in declaration order.
pub struct StatsView {
    pub total_physical: usize,
    pub used_physical: usize,
    pub total_heap: usize,
    pub used_heap: usize,
    pub heap_allocations: usize,
    pub heap_deallocations: usize,
    pub page_allocations: usize,
    pub page_deallocations: usize,
}

impl View for MemoryStats {
    type V = StatsView;

    closed spec fn view(&self) -> StatsView {
        StatsView {
            total_physical: self.total_physical,
            used_physical: self.used_physical,
            total_heap: self.total_heap,
            used_heap: self.used_heap,
            heap_allocations: self.heap_allocations,
            heap_deallocations: self.heap_deallocations,
            page_allocations: self.page_allocations,
            page_deallocations: self.page_deallocations,
        }
    }
}

impl MemoryStats {
    /// All counters at zero.
    pub fn new() -> (r: Self)
        ensures
            r@ == (StatsView {
                total_physical: 0,
                used_physical: 0,
                total_heap: 0,
                used_heap: 0,
                heap_allocations: 0,
                heap_deallocations: 0,
                page_allocations: 0,
                page_deallocations: 0,
            }),
    {
        MemoryStats {
            total_physical: 0,
            used_physical: 0,
            total_heap: 0,
            used_heap: 0,
            heap_allocations: 0,
            heap_deallocations: 0,
            page_allocations: 0,
            page_deallocations: 0,
        }
    }

    /// Sets the total physical memory in bytes.
    pub fn set_total_physical(&mut self, bytes: usize)
        ensures
            final(self)@ == (StatsView { total_physical: bytes, ..old(self)@ }),
    {
        self.total_physical = bytes;
    }

    /// Total physical memory in bytes.
    pub fn total_physical(&self) -> (r: usize)
        ensures
            r == self@.total_physical,
    {
        self.total_physical
    }

    /// Sets the used physical memory in bytes.
    pub fn set_used_physical(&mut self, bytes: usize)
        ensures
            final(self)@ == (StatsView { used_physical: bytes, ..old(self)@ }),
    {
        self.used_physical = bytes;
    }

    /// Used physical memory in bytes.
    pub fn used_physical(&self) -> (r: usize)
        ensures
            r == self@.used_physical,
    {
        self.used_physical
    }

    /// Free physical memory: total minus used, never below zero.
    pub fn free_physical(&self) -> (r: usize)
        ensures
            r == spec_saturating_sub(self@.total_physical, self@.used_physical),
    {
        self.total_physical().saturating_sub(self.used_physical())
    }

    /// Sets the heap size in bytes.
    pub fn set_total_heap(&mut self, bytes: usize)
        ensures
            final(self)@ == (StatsView { total_heap: bytes, ..old(self)@ }),
    {
        self.total_heap = bytes;
    }

    /// Heap size in bytes.
    pub fn total_heap(&self) -> (r: usize)
        ensures
            r == self@.total_heap,
    {
        self.total_heap
    }

    /// Counts a heap allocation of `bytes` bytes.
    pub fn record_heap_alloc(&mut self, bytes: usize)
        ensures
            final(self)@ == (StatsView {
                used_heap: spec_wrapping_add(old(self)@.used_heap, bytes),
                heap_allocations: spec_wrapping_add(old(self)@.heap_allocations, 1),
                ..old(self)@
            }),
    {
        self.used_heap = self.used_heap.wrapping_add(bytes);
        self.heap_allocations = self.heap_allocations.wrapping_add(1);
    }

    /// Counts a heap free of `bytes` bytes.
    pub fn record_heap_dealloc(&mut self, bytes: usize)
        ensures
            final(self)@ == (StatsView {
                used_heap: spec_wrapping_sub(old(self)@.used_heap, bytes),
                heap_deallocations: spec_wrapping_add(old(self)@.heap_deallocations, 1),
                ..old(self)@
            }),
    {
        self.used_heap = self.used_heap.wrapping_sub(bytes);
        self.heap_deallocations = self.heap_deallocations.wrapping_add(1);
    }

    /// Used heap bytes.
    pub fn used_heap(&self) -> (r: usize)
        ensures
            r == self@.used_heap,
    {
        self.used_heap
    }

    /// Free heap bytes: total minus used, never below zero.
    pub fn free_heap(&self) -> (r: usize)
        ensures
            r == spec_saturating_sub(self@.total_heap, self@.used_heap),
    {
        self.total_heap().saturating_sub(self.used_heap())
    }

    /// Number of heap allocations.
    pub fn heap_allocations(&self) -> (r: usize)
        ensures
            r == self@.heap_allocations,
    {
        self.heap_allocations
    }

    /// Number of heap frees.
    pub fn heap_deallocations(&self) -> (r: usize)
        ensures
            r == self@.heap_deallocations,
    {
        self.heap_deallocations
    }

    /// Heap allocations not yet freed, never below zero.
    pub fn active_heap_allocations(&self) -> (r: usize)
        ensures
            r == spec_saturating_sub(self@.heap_allocations, self@.heap_deallocations),
    {
        self.heap_allocations().saturating_sub(self.heap_deallocations())
    }

    /// Counts a page allocation.
    pub fn record_page_alloc(&mut self)
        ensures
            final(self)@ == (StatsView {
                page_allocations: spec_wrapping_add(old(self)@.page_allocations, 1),
                ..old(self)@
            }),
    {
        self.page_allocations = self.page_allocations.wrapping_add(1);
    }

    /// Counts a page free.
    pub fn record_page_dealloc(&mut self)
        ensures
            final(self)@ == (StatsView {
                page_deallocations: spec_wrapping_add(old(self)@.page_deallocations, 1),
                ..old(self)@
            }),
    {
        self.page_deallocations = self.page_deallocations.wrapping_add(1);
    }

    /// Number of page allocations.
    pub fn page_allocations(&self) -> (r: usize)
        ensures
            r == self@.page_allocations,
    {
        self.page_allocations
    }

    /// Number of page frees.
    pub fn page_deallocations(&self) -> (r: usize)
        ensures
            r == self@.page_deallocations,
    {
        self.page_deallocations
    }

    /// Page allocations not yet freed, never below zero.
    pub fn active_page_allocations(&self) -> (r: usize)
        ensures
            r == spec_saturating_sub(self@.page_allocations, self@.page_deallocations),
    {
        self.page_allocations().saturating_sub(self.page_deallocations())
    }
}

/// Recording an allocation and then its free leaves the used heap bytes as
/// they were (wrapping included), and, while the counters do not overflow,
/// the number of active allocations too.
pub proof fn lemma_alloc_then_free_restores(used: usize, allocs: usize, frees: usize, bytes: usize)
    requires
        allocs + 1 <= usize::MAX,
        frees + 1 <= usize::MAX,
        frees <= allocs,
    ensures
        spec_wrapping_sub(spec_wrapping_add(used, bytes), bytes) == used,
        spec_saturating_sub(spec_wrapping_add(allocs, 1), spec_wrapping_add(frees, 1))
            == spec_saturating_sub(allocs, frees),
{
}

} // verus!
