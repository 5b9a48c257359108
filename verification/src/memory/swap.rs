//! Swap space bookkeeping: page-sized swap slots, which pages are swapped
//! out and to which slot. Page contents are kept in memory in place of a
//! disk.

use std::collections::BTreeMap;
use vstd::prelude::*;
use super::addr::{PhysAddr, VirtAddr, PAGE_SIZE};

verus! {

broadcast use {vstd::laws_cmp::group_laws_cmp, vstd::seq_lib::group_seq_properties};

/// Index of a page-sized swap slot.
pub type SwapSlot = usize;

/// Where a swapped-out page went.
#[derive(Debug, Clone)]
struct SwapEntry {
    virt_addr: u64,
    slot: SwapSlot,
    size: usize,
}

/// Swap statistics.
#[derive(Debug, Clone, Copy)]
pub struct SwapStats {
    /// Total swap slots.
    pub total_slots: usize,
    /// Free swap slots.
    pub free_slots: usize,
    /// Slots in use.
    pub used_slots: usize,
    /// Pages currently swapped out.
    pub swapped_pages: usize,
}

/// Swap slots and swapped-out pages.
pub struct SwapManager {
    total_slots: usize,
    free_slots: Vec<SwapSlot>,
    swapped_pages: BTreeMap<u64, SwapEntry>,
    swap_storage: BTreeMap<SwapSlot, Vec<u8>>,
}

fn vec_contains(v: &Vec<usize>, x: usize) -> (r: bool)
    ensures
        r == v@.contains(x),
{
    let mut i: usize = 0;
    while i < v.len()
        invariant
            0 <= i <= v@.len(),
            forall|j: int| 0 <= j < i ==> v@[j] != x,
        decreases v@.len() - i,
    {
        if v[i] == x {
            return true;
        }
        i = i + 1;
    }
    false
}

impl SwapManager {
    /// The number of slots.
    pub closed spec fn spec_total(&self) -> usize {
        self.total_slots
    }

    /// The free slots, most recently freed last.
    pub closed spec fn spec_free(&self) -> Seq<usize> {
        self.free_slots@
    }

    /// Swapped-out pages: virtual address to slot.
    pub closed spec fn spec_swapped(&self) -> Map<u64, usize> {
        self.swapped_pages@.map_values(|e: SwapEntry| e.slot)
    }

    /// The slots whose contents are stored.
    pub closed spec fn spec_stored(&self) -> Set<usize> {
        self.swap_storage@.dom()
    }

    /// Both managers record the same swapped-out pages.
    pub closed spec fn same_pages(&self, other: Self) -> bool {
        self.swapped_pages@ == other.swapped_pages@
    }

    /// Free slots are distinct slot numbers; each swapped page has a slot of
    /// its own that is not free and holds its contents.
    pub closed spec fn wf(&self) -> bool {
        &&& self.free_slots@.no_duplicates()
        &&& forall|i: int| 0 <= i < self.free_slots@.len() ==> #[trigger] self.free_slots@[i] < self.total_slots
        &&& self.free_slots@.len() <= self.total_slots
        &&& forall|v: u64| #[trigger] self.swapped_pages@.contains_key(v) ==> {
            let s = self.swapped_pages@[v].slot;
            &&& s < self.total_slots
            &&& !self.free_slots@.contains(s)
            &&& self.swap_storage@.contains_key(s)
            &&& self.swapped_pages@[v].virt_addr == v
        }
        &&& forall|v1: u64, v2: u64|
            #[trigger] self.swapped_pages@.contains_key(v1) && #[trigger] self.swapped_pages@.contains_key(v2)
                && v1 != v2 ==> self.swapped_pages@[v1].slot != self.swapped_pages@[v2].slot
    }

    /// Creates `num_slots` free slots, numbered from 0 (slot
    /// `num_slots - 1` is handed out first).
    pub fn new(num_slots: usize) -> (r: Self)
        ensures
            r.wf(),
            r.spec_total() == num_slots,
            r.spec_free() == Seq::new(num_slots as nat, |i: int| i as usize),
            r.spec_swapped() == Map::<u64, usize>::empty(),
    {
        let mut free_slots: Vec<SwapSlot> = Vec::with_capacity(num_slots);
        let mut i: usize = 0;
        while i < num_slots
            invariant
                0 <= i <= num_slots,
                free_slots@ == Seq::new(i as nat, |j: int| j as usize),
            decreases num_slots - i,
        {
            free_slots.push(i);
            assert(free_slots@ =~= Seq::new(i as nat + 1, |j: int| j as usize));
            i = i + 1;
        }
        let r = SwapManager {
            total_slots: num_slots,
            free_slots,
            swapped_pages: BTreeMap::new(),
            swap_storage: BTreeMap::new(),
        };
        assert(r.spec_swapped() =~= Map::<u64, usize>::empty());
        r
    }

    /// Takes the most recently freed slot, if any.
    pub fn alloc_slot(&mut self) -> (r: Option<SwapSlot>)
        ensures
            final(self).spec_total() == old(self).spec_total(),
            final(self).spec_swapped() == old(self).spec_swapped(),
            match r {
                Some(s) => old(self).spec_free().len() > 0 && s == old(self).spec_free().last()
                    && final(self).spec_free() == old(self).spec_free().drop_last(),
                None => old(self).spec_free().len() == 0 && final(self).spec_free() == old(self).spec_free(),
            },
            final(self).same_pages(*old(self)),
            final(self).spec_stored() == old(self).spec_stored(),
    {
        self.free_slots.pop()
    }

    /// Returns a slot to the free list and drops its contents; slots out of
    /// range or already free are left alone.
    pub fn free_slot(&mut self, slot: SwapSlot)
        ensures
            final(self).spec_total() == old(self).spec_total(),
            final(self).spec_swapped() == old(self).spec_swapped(),
            final(self).spec_free() == (if slot < old(self).spec_total() && !old(self).spec_free().contains(slot) {
                old(self).spec_free().push(slot)
            } else {
                old(self).spec_free()
            }),
            final(self).same_pages(*old(self)),
            final(self).spec_stored() == (if slot < old(self).spec_total() && !old(self).spec_free().contains(slot) {
                old(self).spec_stored().remove(slot)
            } else {
                old(self).spec_stored()
            }),
    {
        if slot < self.total_slots && !vec_contains(&self.free_slots, slot) {
            self.free_slots.push(slot);
            self.swap_storage.remove(&slot);
        }
    }

    /// Swaps a page out to the most recently freed slot and returns it;
    /// `None` when no slot is free. A page that was already swapped out is
    /// recorded under the new slot.
    pub fn swap_out(&mut self, virt_addr: VirtAddr, phys_addr: PhysAddr) -> (r: Option<SwapSlot>)
        requires
            old(self).wf(),
        ensures
            final(self).wf(),
            final(self).spec_total() == old(self).spec_total(),
            match r {
                Some(s) => {
                    &&& old(self).spec_free().len() > 0
                    &&& s == old(self).spec_free().last()
                    &&& final(self).spec_free() == old(self).spec_free().drop_last()
                    &&& final(self).spec_swapped() == old(self).spec_swapped().insert(virt_addr@, s)
                },
                None => old(self).spec_free().len() == 0 && final(self).spec_free() == old(self).spec_free()
                    && final(self).spec_swapped() == old(self).spec_swapped(),
            },
    {
        let slot = match self.alloc_slot() {
            Some(s) => s,
            None => return None,
        };
        proof {
            let f0 = old(self).free_slots@;
            assert(f0.contains(slot)) by {
                assert(f0[f0.len() - 1] == slot);
            }
            assert(!self.free_slots@.contains(slot)) by {
                if self.free_slots@.contains(slot) {
                    let j = choose|j: int| 0 <= j < self.free_slots@.len() && self.free_slots@[j] == slot;
                    assert(f0[j] == f0[f0.len() - 1]);
                }
            }
        }
        let mut page_data: Vec<u8> = Vec::with_capacity(PAGE_SIZE);
        page_data.resize(PAGE_SIZE, 0);
        self.swap_storage.insert(slot, page_data);
        let entry = SwapEntry { virt_addr: virt_addr.as_u64(), slot, size: PAGE_SIZE };
        self.swapped_pages.insert(virt_addr.as_u64(), entry);
        proof {
            let f0 = old(self).free_slots@;
            assert forall|i: int| 0 <= i < self.free_slots@.len() implies #[trigger] self.free_slots@[i] < self.total_slots by {
                assert(self.free_slots@[i] == f0[i]);
            }
            assert forall|v: u64| #[trigger] self.swapped_pages@.contains_key(v) implies !self.free_slots@.contains(self.swapped_pages@[v].slot) by {
                if v != virt_addr@ {
                    let s = self.swapped_pages@[v].slot;
                    assert(old(self).swapped_pages@.contains_key(v));
                    if self.free_slots@.contains(s) {
                        let j = choose|j: int| 0 <= j < self.free_slots@.len() && self.free_slots@[j] == s;
                        assert(f0[j] == s);
                    }
                }
            }
            assert forall|v1: u64, v2: u64|
                #[trigger] self.swapped_pages@.contains_key(v1) && #[trigger] self.swapped_pages@.contains_key(v2)
                    && v1 != v2 implies self.swapped_pages@[v1].slot != self.swapped_pages@[v2].slot by {
                if v1 == virt_addr@ {
                    assert(old(self).swapped_pages@.contains_key(v2));
                    assert(!f0.contains(self.swapped_pages@[v2].slot));
                } else if v2 == virt_addr@ {
                    assert(old(self).swapped_pages@.contains_key(v1));
                    assert(!f0.contains(self.swapped_pages@[v1].slot));
                }
            }
            assert(self.spec_swapped() =~= old(self).spec_swapped().insert(virt_addr@, slot));
        }
        Some(slot)
    }

    /// Swaps a page back in, freeing its slot. Returns whether the page was
    /// swapped out.
    pub fn swap_in(&mut self, virt_addr: VirtAddr, phys_addr: PhysAddr) -> (r: bool)
        requires
            old(self).wf(),
        ensures
            final(self).wf(),
            final(self).spec_total() == old(self).spec_total(),
            r == old(self).spec_swapped().contains_key(virt_addr@),
            r ==> final(self).spec_swapped() == old(self).spec_swapped().remove(virt_addr@)
                && final(self).spec_free() == old(self).spec_free().push(old(self).spec_swapped()[virt_addr@]),
            !r ==> final(self).spec_swapped() == old(self).spec_swapped() && final(self).spec_free()
                == old(self).spec_free(),
    {
        let virt = virt_addr.as_u64();
        match self.swapped_pages.remove(&virt) {
            Some(entry) => {
                proof {
                    assert(old(self).swapped_pages@.contains_key(virt));
                }
                if self.swap_storage.contains_key(&entry.slot) {
                    let ghost mid = self.free_slots@;
                    self.free_slot(entry.slot);
                    proof {
                        let s = entry.slot;
                        assert(self.free_slots@ == mid.push(s));
                        assert(self.free_slots@.no_duplicates()) by {
                            assert forall|a: int, b: int| 0 <= a < b < self.free_slots@.len() implies self.free_slots@[a] != self.free_slots@[b] by {
                                if b == self.free_slots@.len() - 1 {
                                    assert(mid.contains(mid[a]));
                                }
                            }
                        }
                        assert forall|i: int| 0 <= i < self.free_slots@.len() implies #[trigger] self.free_slots@[i] < self.total_slots by {
                            if i < mid.len() {
                                assert(mid[i] == self.free_slots@[i]);
                            }
                        }
                        assert(mid.len() < self.total_slots) by {
                            lemma_distinct_below_len(mid.push(s), self.total_slots as nat);
                        }
                        assert forall|v: u64| #[trigger] self.swapped_pages@.contains_key(v) implies {
                            let t = self.swapped_pages@[v].slot;
                            &&& !self.free_slots@.contains(t)
                            &&& self.swap_storage@.contains_key(t)
                        } by {
                            assert(old(self).swapped_pages@.contains_key(v));
                            let t = self.swapped_pages@[v].slot;
                            assert(t != s);
                            if self.free_slots@.contains(t) {
                                let j = choose|j: int| 0 <= j < self.free_slots@.len() && self.free_slots@[j] == t;
                                if j < mid.len() {
                                    assert(mid[j] == t);
                                }
                            }
                        }
                        assert(self.spec_swapped() =~= old(self).spec_swapped().remove(virt_addr@));
                    }
                    return true;
                }
                assert(false);
                false
            },
            None => {
                assert(self.spec_swapped() =~= old(self).spec_swapped());
                false
            },
        }
    }

    /// Whether the page is swapped out.
    pub fn is_swapped(&self, virt_addr: VirtAddr) -> (r: bool)
        ensures
            r == self.spec_swapped().contains_key(virt_addr@),
    {
        self.swapped_pages.contains_key(&virt_addr.as_u64())
    }

    /// The slot holding the page, if it is swapped out.
    pub fn get_swap_slot(&self, virt_addr: VirtAddr) -> (r: Option<SwapSlot>)
        ensures
            r == (if self.spec_swapped().contains_key(virt_addr@) {
                Some(self.spec_swapped()[virt_addr@])
            } else {
                None::<usize>
            }),
    {
        match self.swapped_pages.get(&virt_addr.as_u64()) {
            Some(e) => Some(e.slot),
            None => None,
        }
    }

    /// Slot counts and the number of swapped-out pages.
    pub fn get_stats(&self) -> (r: SwapStats)
        requires
            self.wf(),
        ensures
            r.total_slots == self.spec_total(),
            r.free_slots == self.spec_free().len(),
            r.used_slots == self.spec_total() - self.spec_free().len(),
            r.swapped_pages == self.spec_swapped().len(),
    {
        proof {
            assert(self.spec_swapped().dom() =~= self.swapped_pages@.dom());
        }
        SwapStats {
            total_slots: self.total_slots,
            free_slots: self.free_slots.len(),
            used_slots: self.total_slots - self.free_slots.len(),
            swapped_pages: self.swapped_pages.len(),
        }
    }

    /// Whether a slot is free.
    pub fn has_free_space(&self) -> (r: bool)
        ensures
            r == (self.spec_free().len() > 0),
    {
        !self.free_slots.is_empty()
    }

    /// The number of free slots.
    pub fn free_count(&self) -> (r: usize)
        ensures
            r == self.spec_free().len(),
    {
        self.free_slots.len()
    }

    /// The number of slots in use.
    pub fn used_count(&self) -> (r: usize)
        requires
            self.wf(),
        ensures
            r == self.spec_total() - self.spec_free().len(),
    {
        self.total_slots - self.free_slots.len()
    }
}

/// A duplicate-free sequence of numbers below `n` has at most `n` elements.
proof fn lemma_distinct_below_len(s: Seq<usize>, n: nat)
    requires
        s.no_duplicates(),
        forall|i: int| 0 <= i < s.len() ==> s[i] < n,
    ensures
        s.len() <= n,
{
    let full = Set::new(|x: usize| x < n);
    assert(s.to_set().subset_of(full));
    assert(full =~= vstd::set_lib::set_int_range(0, n as int).map(|x: int| x as usize)) by {
        assert forall|x: usize| full.contains(x) implies vstd::set_lib::set_int_range(0, n as int).map(|x: int| x as usize).contains(x) by {
            assert(vstd::set_lib::set_int_range(0, n as int).contains(x as int));
        }
    }
    vstd::set_lib::lemma_int_range(0, n as int);
    vstd::set_lib::lemma_map_size_bound(vstd::set_lib::set_int_range(0, n as int), full, |x: int| x as usize);
    vstd::set_lib::lemma_len_subset(s.to_set(), full);
    s.unique_seq_to_set();
}

/// Swapping a page out and back in frees the slot it took and leaves the
/// set of swapped pages as it was.
pub proof fn lemma_swap_out_in_roundtrip(swapped: Map<u64, usize>, free: Seq<usize>, v: u64)
    requires
        free.len() > 0,
        !swapped.contains_key(v),
    ensures
        ({
            let s = free.last();
            let swapped1 = swapped.insert(v, s);
            let free1 = free.drop_last();
            swapped1.remove(v) == swapped && free1.push(swapped1[v]) == free
        }),
{
    let s = free.last();
    assert(swapped.insert(v, s).remove(v) =~= swapped);
    assert(free.drop_last().push(s) =~= free);
}

} // verus!
