//! Bookkeeping of memory mappings (mmap / munmap) of one address space.
//!
//! Mappings are page-granular, never empty and never overlap: `mmap`
//! refuses a range that intersects an existing mapping, and `munmap`
//! drops every mapping that intersects the unmapped range.

use std::collections::BTreeMap;
use vstd::std_specs::cmp::OrdSpec;
use vstd::prelude::*;
use super::addr::{align_down, align_up, spec_align_down, spec_align_up, PhysAddr, VirtAddr, PAGE_SIZE};

verus! {

broadcast use {
    vstd::laws_cmp::group_laws_cmp,
    vstd::std_specs::btree::group_btree_axioms,
    vstd::seq_lib::group_seq_properties,
    vstd::seq_lib::group_filter_ensures,
};

/// Mapping flags.
#[derive(Debug, Clone, Copy, PartialEq, Eq, Structural)]
pub struct MmapFlags(u32);

impl View for MmapFlags {
    type V = u32;

    closed spec fn view(&self) -> u32 {
        self.0
    }
}

impl MmapFlags {
    /// No flag.
    pub fn none() -> (r: Self)
        ensures
            r@ == 0,
    {
        MmapFlags(0)
    }

    /// Changes are shared.
    pub fn shared() -> (r: Self)
        ensures
            r@ == 1,
    {
        MmapFlags(1)
    }

    /// Changes are private (copy-on-write).
    pub fn private() -> (r: Self)
        ensures
            r@ == 2,
    {
        MmapFlags(2)
    }

    /// Not backed by a file.
    pub fn anonymous() -> (r: Self)
        ensures
            r@ == 32,
    {
        MmapFlags(32)
    }

    /// Place the mapping exactly at the requested address.
    pub fn fixed() -> (r: Self)
        ensures
            r@ == 16,
    {
        MmapFlags(16)
    }

    /// The empty flag set.
    pub fn empty() -> (r: Self)
        ensures
            r@ == 0,
    {
        MmapFlags(0)
    }

    /// Whether the flags share a bit with `flag`.
    pub fn contains(&self, flag: Self) -> (r: bool)
        ensures
            r == (self@ & flag@ != 0),
    {
        self.0 & flag.0 != 0
    }

    /// The union with `flag`.
    pub fn with(self, flag: Self) -> (r: Self)
        ensures
            r@ == self@ | flag@,
    {
        MmapFlags(self.0 | flag.0)
    }

    /// The raw bits.
    pub fn bits(&self) -> (r: u32)
        ensures
            r == self@,
    {
        self.0
    }

    /// Flags from raw bits.
    pub fn from_bits(bits: u32) -> (r: Self)
        ensures
            r@ == bits,
    {
        MmapFlags(bits)
    }
}

/// Page protection requested for a mapping.
#[derive(Debug, Clone, Copy, PartialEq, Eq, Structural)]
pub struct MmapProt(u32);

impl View for MmapProt {
    type V = u32;

    closed spec fn view(&self) -> u32 {
        self.0
    }
}

impl MmapProt {
    /// No access.
    pub fn none() -> (r: Self)
        ensures
            r@ == 0,
    {
        MmapProt(0)
    }

    /// Readable.
    pub fn read() -> (r: Self)
        ensures
            r@ == 1,
    {
        MmapProt(1)
    }

    /// Writable.
    pub fn write() -> (r: Self)
        ensures
            r@ == 2,
    {
        MmapProt(2)
    }

    /// Executable.
    pub fn execute() -> (r: Self)
        ensures
            r@ == 4,
    {
        MmapProt(4)
    }

    /// The empty protection.
    pub fn empty() -> (r: Self)
        ensures
            r@ == 0,
    {
        MmapProt(0)
    }

    /// Whether the protection shares a bit with `flag`.
    pub fn contains(&self, flag: Self) -> (r: bool)
        ensures
            r == (self@ & flag@ != 0),
    {
        self.0 & flag.0 != 0
    }

    /// The union with `flag`.
    pub fn with(self, flag: Self) -> (r: Self)
        ensures
            r@ == self@ | flag@,
    {
        MmapProt(self.0 | flag.0)
    }

    /// The raw bits.
    pub fn bits(&self) -> (r: u32)
        ensures
            r == self@,
    {
        self.0
    }

    /// Protection from raw bits.
    pub fn from_bits(bits: u32) -> (r: Self)
        ensures
            r@ == bits,
    {
        MmapProt(bits)
    }
}

/// A mapped range of virtual memory.
#[derive(Debug, Clone)]
pub struct MemoryMapping {
    /// Start address.
    pub start: VirtAddr,
    /// Size in bytes.
    pub size: usize,
    /// Protection.
    pub prot: MmapProt,
    /// Flags.
    pub flags: MmapFlags,
    /// Physical pages backing the mapping.
    pub phys_pages: Vec<PhysAddr>,
}

impl MemoryMapping {
    /// The end of the mapping does not pass the top of the address space.
    pub open spec fn wf(&self) -> bool {
        self.start@ + self.size <= u64::MAX
    }

    /// Creates a mapping without backing pages.
    pub fn new(start: VirtAddr, size: usize, prot: MmapProt, flags: MmapFlags) -> (r: Self)
        ensures
            r.start == start,
            r.size == size,
            r.prot == prot,
            r.flags == flags,
            r.phys_pages@ == Seq::<PhysAddr>::empty(),
    {
        MemoryMapping { start, size, prot, flags, phys_pages: Vec::new() }
    }

    /// The first address past the mapping.
    pub fn end(&self) -> (r: VirtAddr)
        requires
            self.wf(),
        ensures
            r@ == self.start@ + self.size,
    {
        VirtAddr::new(self.start.as_u64() + self.size as u64)
    }

    /// Whether `addr` lies in `[start, end)`.
    pub fn contains(&self, addr: VirtAddr) -> (r: bool)
        requires
            self.wf(),
        ensures
            r == (self.start@ <= addr@ < self.start@ + self.size),
    {
        let addr_val = addr.as_u64();
        let start_val = self.start.as_u64();
        let end_val = self.end().as_u64();
        addr_val >= start_val && addr_val < end_val
    }

    /// Records a physical page backing the mapping.
    pub fn add_phys_page(&mut self, phys: PhysAddr)
        ensures
            final(self).phys_pages@ == old(self).phys_pages@.push(phys),
            final(self).start == old(self).start,
            final(self).size == old(self).size,
            final(self).prot == old(self).prot,
            final(self).flags == old(self).flags,
    {
        self.phys_pages.push(phys);
    }
}

/// Whether `[a, a + alen)` and `[b, b + blen)` intersect.
pub open spec fn spec_ranges_overlap(a: int, alen: int, b: int, blen: int) -> bool {
    a < b + blen && a + alen > b
}

/// Whether `[addr, addr + len)` intersects a mapping of `m`.
pub open spec fn spec_overlaps(m: Map<u64, MemoryMapping>, addr: int, len: int) -> bool {
    exists|k: u64| #[trigger] m.contains_key(k) && spec_ranges_overlap(addr, len, k as int, m[k].size as int)
}

/// Whether the mapping of `m` at `k` intersects `[a, a + len)`.
pub open spec fn spec_overlap_pred(m: Map<u64, MemoryMapping>, a: int, len: int) -> spec_fn(u64) -> bool {
    |k: u64| spec_ranges_overlap(a, len, k as int, m[k].size as int)
}

/// Whether the placement of a mapping is automatic.
pub open spec fn spec_auto_place(addr: u64, flags: MmapFlags) -> bool {
    addr == 0 || flags@ & 16 == 0
}

/// The address a mapping of `length` bytes gets from `mmap`.
pub open spec fn spec_mmap_addr(next: u64, addr: u64, flags: MmapFlags) -> u64 {
    if spec_auto_place(addr, flags) {
        next
    } else {
        spec_align_down(addr, 4096)
    }
}

/// Where `mmap` places a mapping: a fixed placement is page aligned; an
/// automatic one is aligned when the placement address was, and the
/// placement address moves to a page boundary past the new mapping, so
/// the next automatic placement starts after it. The length is rounded up
/// to whole pages.
pub proof fn lemma_mmap_placement(next: u64, addr: u64, flags: MmapFlags, length: usize)
    requires
        length > 0,
        length + 4095 <= u64::MAX,
        spec_auto_place(addr, flags) ==> next + spec_align_up(length as u64, 4096) + 4095 <= u64::MAX,
    ensures
        ({
            let aligned = spec_align_up(length as u64, 4096);
            let va = spec_mmap_addr(next, addr, flags);
            let nn = spec_align_up((next + aligned) as u64, 4096);
            &&& aligned % 4096 == 0 && length <= aligned
            &&& !spec_auto_place(addr, flags) ==> va % 4096 == 0
            &&& spec_auto_place(addr, flags) ==> {
                &&& nn % 4096 == 0
                &&& va + aligned <= nn
                &&& va < nn
                &&& next % 4096 == 0 ==> va % 4096 == 0
            }
        }),
{
    super::addr::lemma_page_size_pow2();
    super::addr::lemma_align_up_is_ceiling(length as u64, 4096);
    super::addr::lemma_align_down_is_floor(addr, 4096);
    if spec_auto_place(addr, flags) {
        let aligned = spec_align_up(length as u64, 4096);
        super::addr::lemma_align_up_is_ceiling((next + aligned) as u64, 4096);
    }
}

/// Memory mappings of one address space, keyed by start address.
pub struct MmapManager {
    mappings: BTreeMap<u64, MemoryMapping>,
    next_addr: u64,
}

impl MmapManager {
    /// The mappings, by start address.
    pub closed spec fn spec_mappings(&self) -> Map<u64, MemoryMapping> {
        self.mappings@
    }

    /// The next address used for automatic placement.
    pub closed spec fn spec_next(&self) -> u64 {
        self.next_addr
    }

    /// Each mapping sits at its key, is not empty, fits in the address
    /// space, and no two mappings overlap.
    pub open spec fn wf(&self) -> bool {
        let m = self.spec_mappings();
        &&& forall|k: u64| #[trigger] m.contains_key(k) ==> m[k].start@ == k && m[k].size > 0 && m[k].wf()
        &&& forall|k1: u64, k2: u64|
            #[trigger] m.contains_key(k1) && #[trigger] m.contains_key(k2) && k1 != k2 ==> !spec_ranges_overlap(
                k1 as int,
                m[k1].size as int,
                k2 as int,
                m[k2].size as int,
            )
    }

    /// The manager holds finitely many mappings.
    pub proof fn lemma_mappings_finite(&self)
        ensures
            self.spec_mappings().dom().finite(),
    {
        vstd::std_specs::btree::axiom_btree_map_view_finite_dom(self.mappings);
    }

    /// Creates a manager without mappings that places automatic mappings
    /// from `start_addr` on.
    pub fn new(start_addr: u64) -> (r: Self)
        ensures
            r.wf(),
            r.spec_mappings() == Map::<u64, MemoryMapping>::empty(),
            r.spec_next() == start_addr,
    {
        MmapManager { mappings: BTreeMap::new(), next_addr: start_addr }
    }

    /// The start addresses of the mappings, in increasing order.
    fn sorted_keys(&self) -> (r: Vec<u64>)
        ensures
            r@.to_set() == self.mappings@.dom(),
            r@.no_duplicates(),
            forall|i: int, j: int| 0 <= i < j < r@.len() ==> r@[i] < r@[j],
    {
        let mut r: Vec<u64> = Vec::new();
        if self.mappings.len() == 0 {
            assert(r@.to_set() =~= self.mappings@.dom());
            return r;
        }
        for k in it: self.mappings.keys()
            invariant
                it.seq().unref().to_set() == self.mappings@.dom(),
                it.seq().unref().no_duplicates(),
                it.seq().len() == self.mappings@.dom().len(),
                self.mappings@.dom().len() > 0,
                vstd::std_specs::btree::increasing_seq(it.seq()),
                r@ == it.seq().unref().take(it.index()),
                forall|a: int, b: int| 0 <= a < b < r@.len() ==> r@[a] < r@[b],
                it.index() == it.seq().len() ==> r@.to_set() == self.mappings@.dom() && r@.no_duplicates(),
        {
            let ghost i = it.index();
            proof {
                lemma_increasing_keys(it.seq());
            }
            r.push(*k);
            proof {
                assert(r@ =~= it.seq().unref().take(i + 1));
                lemma_prefix_full(it.seq().unref(), r@, i + 1);
            }
        }
        r
    }

    /// Whether `[addr, addr + length)` intersects an existing mapping.
    fn check_overlap(&self, addr: u64, length: usize) -> (r: bool)
        requires
            self.wf(),
            addr + length <= u64::MAX,
        ensures
            r == spec_overlaps(self.spec_mappings(), addr as int, length as int),
    {
        let end = addr + length as u64;
        let keys = self.sorted_keys();
        let mut i: usize = 0;
        while i < keys.len()
            invariant
                self.wf(),
                end == addr + length,
                keys@.to_set() == self.mappings@.dom(),
                0 <= i <= keys@.len(),
                forall|j: int| 0 <= j < i ==> !spec_ranges_overlap(
                    addr as int,
                    length as int,
                    keys@[j] as int,
                    self.mappings@[keys@[j]].size as int,
                ),
            decreases keys@.len() - i,
        {
            let k = keys[i];
            assert(keys@.to_set().contains(k));
            assert(self.mappings@.contains_key(k));
            assert(self.spec_mappings().contains_key(k));
            assert(self.mappings@[k].wf());
            let mapping = self.mappings.get(&k).unwrap();
            assert(*mapping == self.mappings@[k]);
            let mapping_start = mapping.start.as_u64();
            let mapping_end = mapping.end().as_u64();
            if addr < mapping_end && end > mapping_start {
                return true;
            }
            i = i + 1;
        }
        proof {
            if spec_overlaps(self.spec_mappings(), addr as int, length as int) {
                let k = choose|k: u64| #[trigger] self.mappings@.contains_key(k) && spec_ranges_overlap(
                    addr as int,
                    length as int,
                    k as int,
                    self.mappings@[k].size as int,
                );
                assert(keys@.to_set().contains(k));
                let j = choose|j: int| 0 <= j < keys@.len() && keys@[j] == k;
            }
        }
        false
    }

    /// Maps `length` bytes (rounded up to whole pages). Without the fixed
    /// flag, or with address 0, the mapping goes at the automatic placement
    /// address, which then moves past it; otherwise at `addr` rounded down
    /// to a page. Fails on a zero length or when the range intersects an
    /// existing mapping (the placement address moves on even then).
    pub fn mmap(&mut self, addr: u64, length: usize, prot: MmapProt, flags: MmapFlags) -> (r: Option<VirtAddr>)
        requires
            old(self).wf(),
            length + 4095 <= u64::MAX,
            spec_align_up(length as u64, 4096) <= usize::MAX,
            length > 0 && spec_auto_place(addr, flags) ==> old(self).spec_next() + spec_align_up(length as u64, 4096) + 4095 <= u64::MAX,
            length > 0 ==> spec_mmap_addr(old(self).spec_next(), addr, flags) + spec_align_up(length as u64, 4096) <= u64::MAX,
        ensures
            final(self).wf(),
            ({
                let aligned = spec_align_up(length as u64, 4096);
                let va = spec_mmap_addr(old(self).spec_next(), addr, flags);
                let m0 = old(self).spec_mappings();
                let m1 = final(self).spec_mappings();
                &&& final(self).spec_next() == (if length > 0 && spec_auto_place(addr, flags) {
                    spec_align_up((old(self).spec_next() + aligned) as u64, 4096)
                } else {
                    old(self).spec_next()
                })
                &&& (r is Some <==> length > 0 && !spec_overlaps(m0, va as int, aligned as int))
                &&& (r is None ==> m1 == m0)
                &&& (r matches Some(v) ==> {
                    &&& v@ == va
                    &&& m1.dom() == m0.dom().insert(va)
                    &&& m1[va].start@ == va && m1[va].size == aligned && m1[va].prot == prot
                    &&& m1[va].flags == flags && m1[va].phys_pages@ == Seq::<PhysAddr>::empty()
                    &&& forall|k: u64| #[trigger] m0.contains_key(k) ==> m1[k] == m0[k]
                    &&& !m0.contains_key(va) && m1.len() == m0.len() + 1
                })
            }),
    {
        proof {
            self.lemma_mappings_finite();
        }
        if length == 0 {
            return None;
        }
        let aligned_length = align_up(length as u64, PAGE_SIZE as u64) as usize;
        proof {
            super::addr::lemma_page_size_pow2();
            super::addr::lemma_align_up_is_ceiling(length as u64, 4096);
        }
        let auto_place = addr == 0 || !flags.contains(MmapFlags::fixed());
        let virt_addr = if auto_place {
            self.next_addr
        } else {
            align_down(addr, PAGE_SIZE as u64)
        };
        if auto_place {
            let new_next = align_up(self.next_addr + aligned_length as u64, PAGE_SIZE as u64);
            if self.check_overlap(virt_addr, aligned_length) {
                self.next_addr = new_next;
                return None;
            }
            self.next_addr = new_next;
        } else if self.check_overlap(virt_addr, aligned_length) {
            return None;
        }
        let mapping = MemoryMapping::new(VirtAddr::new(virt_addr), aligned_length, prot, flags);
        let ghost m0 = self.mappings@;
        self.mappings.insert(virt_addr, mapping);
        proof {
            let m1 = self.mappings@;
            assert(m1.dom() =~= m0.dom().insert(virt_addr));
            if m0.contains_key(virt_addr) {
                assert(spec_ranges_overlap(virt_addr as int, aligned_length as int, virt_addr as int, m0[virt_addr].size as int));
            }
            assert forall|k1: u64, k2: u64|
                #[trigger] m1.contains_key(k1) && #[trigger] m1.contains_key(k2) && k1 != k2 implies !spec_ranges_overlap(
                k1 as int,
                m1[k1].size as int,
                k2 as int,
                m1[k2].size as int,
            ) by {
                if k1 == virt_addr {
                    assert(m0.contains_key(k2));
                } else if k2 == virt_addr {
                    assert(m0.contains_key(k1));
                }
            }
        }
        Some(VirtAddr::new(virt_addr))
    }

    /// Unmaps every mapping that intersects `[addr, addr + length)`, with
    /// `addr` rounded down and `length` rounded up to pages. Returns
    /// whether any mapping was removed; a zero length removes nothing.
    pub fn munmap(&mut self, addr: u64, length: usize) -> (r: bool)
        requires
            old(self).wf(),
            length + 4095 <= u64::MAX,
            spec_align_up(length as u64, 4096) <= usize::MAX,
            length > 0 ==> spec_align_down(addr, 4096) + spec_align_up(length as u64, 4096) <= u64::MAX,
        ensures
            final(self).wf(),
            final(self).spec_next() == old(self).spec_next(),
            ({
                let a = spec_align_down(addr, 4096) as int;
                let len = spec_align_up(length as u64, 4096) as int;
                let m0 = old(self).spec_mappings();
                &&& r == (length > 0 && spec_overlaps(m0, a, len))
                &&& final(self).spec_mappings() == (if length == 0 { m0 } else {
                    m0.restrict(m0.dom().filter(|k: u64| !spec_ranges_overlap(a, len, k as int, m0[k].size as int)))
                })
            }),
    {
        if length == 0 {
            return false;
        }
        let aligned_addr = align_down(addr, PAGE_SIZE as u64);
        let aligned_length = align_up(length as u64, PAGE_SIZE as u64) as usize;
        let ghost a = aligned_addr as int;
        let ghost len = aligned_length as int;
        let ghost m0 = self.mappings@;
        let keys = self.sorted_keys();
        let ghost ov = spec_overlap_pred(m0, a, len);
        let mut to_remove: Vec<u64> = Vec::new();
        let mut i: usize = 0;
        while i < keys.len()
            invariant
                self.wf(),
                self.mappings@ == m0,
                keys@.to_set() == m0.dom(),
                0 <= i <= keys@.len(),
                aligned_addr + aligned_length <= u64::MAX,
                a == aligned_addr,
                len == aligned_length,
                ov == spec_overlap_pred(m0, a, len),
                to_remove@ == keys@.take(i as int).filter(ov),
            decreases keys@.len() - i,
        {
            let start = keys[i];
            assert(keys@.to_set().contains(start));
            assert(m0.contains_key(start));
            assert(self.spec_mappings().contains_key(start));
            assert(m0[start].wf());
            let mapping = self.mappings.get(&start).unwrap();
            let mapping_start = start;
            let mapping_end = start + mapping.size as u64;
            let unmap_end = aligned_addr + aligned_length as u64;
            proof {
                assert(keys@.take(i as int + 1) =~= keys@.take(i as int).push(start));
                keys@.take(i as int).lemma_filter_push(start, ov);
            }
            if aligned_addr < mapping_end && unmap_end > mapping_start {
                to_remove.push(start);
            }
            i = i + 1;
        }
        proof {
            assert(keys@.take(keys@.len() as int) =~= keys@);
        }
        let ghost removed = to_remove@;
        let mut j: usize = 0;
        while j < to_remove.len()
            invariant
                0 <= j <= removed.len(),
                to_remove@ == removed,
                self.next_addr == old(self).next_addr,
                self.mappings@ == m0.restrict(m0.dom().filter(|k: u64| !removed.take(j as int).contains(k))),
            decreases removed.len() - j,
        {
            let k = to_remove[j];
            self.mappings.remove(&k);
            proof {
                assert(removed.take(j as int + 1) =~= removed.take(j as int).push(k));
                assert forall|kk: u64| removed.take(j as int + 1).contains(kk) <==> (removed.take(j as int).contains(kk) || kk == k) by {
                    if removed.take(j as int + 1).contains(kk) && kk != k {
                        let p = choose|p: int| 0 <= p < j + 1 && #[trigger] removed.take(j as int + 1)[p] == kk;
                        assert(removed.take(j as int)[p] == kk);
                    }
                    if removed.take(j as int).contains(kk) {
                        let p = choose|p: int| 0 <= p < j && #[trigger] removed.take(j as int)[p] == kk;
                        assert(removed.take(j as int + 1)[p] == kk);
                    }
                    if kk == k {
                        assert(removed.take(j as int + 1)[j as int] == kk);
                    }
                }
                assert(self.mappings@ =~= m0.restrict(m0.dom().filter(|kk: u64| !removed.take(j as int + 1).contains(kk))));
            }
            j = j + 1;
        }
        proof {
            assert(removed.take(removed.len() as int) =~= removed);
            assert forall|kk: u64| m0.contains_key(kk) implies (removed.contains(kk) <==> ov(kk)) by {
                assert(keys@.to_set().contains(kk));
                let jj = choose|jj: int| 0 <= jj < keys@.len() && keys@[jj] == kk;
                if ov(kk) {
                    keys@.lemma_filter_contains(ov, jj);
                }
            }
            assert(self.mappings@ =~= m0.restrict(m0.dom().filter(|k: u64| !spec_ranges_overlap(a, len, k as int, m0[k].size as int))));
            if spec_overlaps(m0, a, len) {
                let k = choose|k: u64| #[trigger] m0.contains_key(k) && spec_ranges_overlap(a, len, k as int, m0[k].size as int);
                assert(removed.contains(k));
            }
            if removed.len() > 0 {
                assert(removed == keys@.filter(ov));
                assert(removed.contains(removed[0]));
                keys@.lemma_filter_contains_rev(ov, removed[0]);
                assert(keys@.contains(removed[0]));
                assert(keys@.to_set().contains(removed[0]));
                assert(m0.contains_key(removed[0]));
            }
            let m1 = self.mappings@;
            assert forall|k: u64| #[trigger] m1.contains_key(k) implies m0.contains_key(k) && m1[k] == m0[k] by {}
            assert forall|k: u64| #[trigger] self.spec_mappings().contains_key(k) implies old(self).spec_mappings().contains_key(k) && self.spec_mappings()[k] == old(self).spec_mappings()[k] by {
                assert(m1.contains_key(k));
            }
        }
        to_remove.len() != 0
    }

    /// The mapping that holds `addr`, if any (mappings never overlap, so
    /// there is at most one).
    pub fn find_mapping(&self, addr: VirtAddr) -> (r: Option<&MemoryMapping>)
        requires
            self.wf(),
        ensures
            match r {
                Some(mp) => self.spec_mappings().contains_key(mp.start@) && *mp == self.spec_mappings()[mp.start@]
                    && mp.start@ <= addr@ < mp.start@ + mp.size,
                None => forall|k: u64| #[trigger] self.spec_mappings().contains_key(k) ==> !(k <= addr@ < k
                    + self.spec_mappings()[k].size),
            },
    {
        let keys = self.sorted_keys();
        let mut i: usize = 0;
        while i < keys.len()
            invariant
                self.wf(),
                keys@.to_set() == self.mappings@.dom(),
                0 <= i <= keys@.len(),
                forall|j: int| 0 <= j < i ==> !(#[trigger] keys@[j] <= addr@ < keys@[j] + self.mappings@[keys@[j]].size),
            decreases keys@.len() - i,
        {
            let k = keys[i];
            assert(keys@.to_set().contains(k));
            assert(self.mappings@.contains_key(k));
            assert(self.spec_mappings().contains_key(k));
            let mapping = self.mappings.get(&k).unwrap();
            assert(*mapping == self.mappings@[k]);
            if mapping.contains(addr) {
                return Some(mapping);
            }
            i = i + 1;
        }
        proof {
            assert forall|k: u64| #[trigger] self.mappings@.contains_key(k) implies !(k <= addr@ < k
                + self.mappings@[k].size) by {
                assert(keys@.to_set().contains(k));
                let j = choose|j: int| 0 <= j < keys@.len() && keys@[j] == k;
            }
        }
        None
    }

    /// The start address of the mapping that holds `addr`, if any.
    fn find_key(&self, addr: VirtAddr) -> (r: Option<u64>)
        requires
            self.wf(),
        ensures
            match r {
                Some(k) => self.spec_mappings().contains_key(k) && k <= addr@ < k + self.spec_mappings()[k].size,
                None => forall|k: u64| #[trigger] self.spec_mappings().contains_key(k) ==> !(k <= addr@ < k
                    + self.spec_mappings()[k].size),
            },
    {
        match self.find_mapping(addr) {
            Some(mp) => Some(mp.start.as_u64()),
            None => None,
        }
    }

    /// The mapping that holds `addr`, for modification.
    pub fn find_mapping_mut(&mut self, addr: VirtAddr) -> (r: Option<&mut MemoryMapping>)
        requires
            old(self).wf(),
        ensures
            match r {
                Some(mp) => {
                    let k = (*mp).start@;
                    &&& old(self).spec_mappings().contains_key(k)
                    &&& *mp == old(self).spec_mappings()[k]
                    &&& k <= addr@ < k + (*mp).size
                    &&& final(self).spec_mappings() == old(self).spec_mappings().insert(k, *final(mp))
                    &&& final(self).spec_next() == old(self).spec_next()
                },
                None => {
                    &&& forall|k: u64| #[trigger] old(self).spec_mappings().contains_key(k) ==> !(k <= addr@ < k
                        + old(self).spec_mappings()[k].size)
                    &&& *final(self) == *old(self)
                },
            },
    {
        match self.find_key(addr) {
            Some(k) => crate::btree_util::btree_get_mut(&mut self.mappings, &k),
            None => None,
        }
    }

    /// All mappings, in increasing order of start address.
    pub fn mappings(&self) -> (r: Vec<&MemoryMapping>)
        requires
            self.wf(),
        ensures
            r@.len() == self.spec_mappings().len(),
            forall|i: int| 0 <= i < r@.len() ==> self.spec_mappings().contains_key(#[trigger] r@[i].start@)
                && *r@[i] == self.spec_mappings()[r@[i].start@],
            forall|i: int, j: int| 0 <= i < j < r@.len() ==> r@[i].start@ < r@[j].start@,
    {
        let keys = self.sorted_keys();
        proof {
            keys@.unique_seq_to_set();
        }
        let mut r: Vec<&MemoryMapping> = Vec::new();
        let mut i: usize = 0;
        while i < keys.len()
            invariant
                self.wf(),
                keys@.to_set() == self.mappings@.dom(),
                keys@.len() == self.mappings@.len(),
                forall|a: int, b: int| 0 <= a < b < keys@.len() ==> keys@[a] < keys@[b],
                0 <= i <= keys@.len(),
                r@.len() == i,
                forall|j: int| 0 <= j < i ==> (#[trigger] r@[j]).start@ == keys@[j] && *r@[j] == self.mappings@[keys@[j]],
            decreases keys@.len() - i,
        {
            let k = keys[i];
            assert(keys@.to_set().contains(k));
            assert(self.mappings@.contains_key(k));
            assert(self.spec_mappings().contains_key(k));
            let mapping = self.mappings.get(&k).unwrap();
            assert(*mapping == self.mappings@[k]);
            assert(mapping.start@ == k);
            r.push(mapping);
            i = i + 1;
        }
        proof {
            assert forall|i: int| 0 <= i < r@.len() implies self.mappings@.contains_key(#[trigger] r@[i].start@) by {
                assert(keys@.contains(keys@[i]));
            }
        }
        r
    }

    /// The number of mappings.
    pub fn count(&self) -> (r: usize)
        ensures
            r == self.spec_mappings().len(),
    {
        self.mappings.len()
    }
}

proof fn lemma_prefix_full(ks: Seq<u64>, r: Seq<u64>, n: int)
    requires
        0 <= n <= ks.len(),
        r == ks.take(n),
    ensures
        n == ks.len() ==> r.to_set() == ks.to_set() && (ks.no_duplicates() ==> r.no_duplicates()),
{
    if n == ks.len() {
        assert(r =~= ks);
    }
}

proof fn lemma_increasing_keys(ks: Seq<&u64>)
    requires
        vstd::std_specs::btree::increasing_seq(ks),
    ensures
        forall|i: int, j: int| 0 <= i < j < ks.len() ==> *ks[i] < *ks[j],
{
    assert(vstd::laws_cmp::obeys_cmp::<u64>());
    assert(vstd::laws_cmp::obeys_cmp::<&u64>());
    assert forall|i: int, j: int| 0 <= i < j < ks.len() implies *ks[i] < *ks[j] by {
        assert((&ks[i]).cmp_spec(&ks[j]) is Less);
    }
}

} // verus!
