//! The four-level page table walk: translating, mapping and unmapping a
//! virtual address over the page tables held in physical memory, with
//! new tables taken from the physical page allocator.

use std::collections::BTreeMap;
use vstd::prelude::*;
use super::paging::{
    pd_index, pdpt_index, pml4_index, pt_index, page_offset, PageTable, PageTableEntry, PageTableFlags,
    ADDR_MASK,
};
use super::pmm::PhysicalMemoryManager;

verus! {

broadcast use vstd::laws_cmp::group_laws_cmp;

/// A table of 512 zero entries: what a page holds that is not a table.
pub open spec fn spec_zero_table() -> Seq<u64> {
    Seq::new(512, |i: int| 0u64)
}

/// The entries of the table at `table`.
pub open spec fn spec_table(m: Map<u64, Seq<u64>>, table: u64) -> Seq<u64> {
    if m.contains_key(table) {
        m[table]
    } else {
        spec_zero_table()
    }
}

/// Entry `i` of the table at `table`.
pub open spec fn spec_entry(m: Map<u64, Seq<u64>>, table: u64, i: int) -> u64 {
    spec_table(m, table)[i]
}

/// Whether an entry is present.
pub open spec fn spec_present(e: u64) -> bool {
    e & 1 != 0
}

/// The table or page a present entry points to.
pub open spec fn spec_next(m: Map<u64, Seq<u64>>, table: u64, i: int) -> Option<u64> {
    let e = spec_entry(m, table, i);
    if spec_present(e) {
        Some(e & ADDR_MASK)
    } else {
        None
    }
}

/// The four table indices of a virtual address, from the top level.
pub open spec fn spec_l4(v: u64) -> int {
    ((v / 0x80_0000_0000) % 512) as int
}

/// The third-level index.
pub open spec fn spec_l3(v: u64) -> int {
    ((v / 0x4000_0000) % 512) as int
}

/// The second-level index.
pub open spec fn spec_l2(v: u64) -> int {
    ((v / 0x20_0000) % 512) as int
}

/// The last-level index.
pub open spec fn spec_l1(v: u64) -> int {
    ((v / 0x1000) % 512) as int
}

/// The last-level table of `v` and its entry for `v`, when the walk from
/// `pml4` reaches a present last-level entry.
pub open spec fn spec_leaf(m: Map<u64, Seq<u64>>, pml4: u64, v: u64) -> Option<(u64, u64)> {
    match spec_next(m, pml4, spec_l4(v)) {
        None => None,
        Some(t3) => match spec_next(m, t3, spec_l3(v)) {
            None => None,
            Some(t2) => match spec_next(m, t2, spec_l2(v)) {
                None => None,
                Some(t1) => {
                    let e = spec_entry(m, t1, spec_l1(v));
                    if spec_present(e) {
                        Some((t1, e))
                    } else {
                        None
                    }
                },
            },
        },
    }
}

/// The physical address `v` maps to.
pub open spec fn spec_translate(m: Map<u64, Seq<u64>>, pml4: u64, v: u64) -> Option<u64> {
    match spec_leaf(m, pml4, v) {
        Some((_, e)) => Some(((e & ADDR_MASK) + v % 0x1000) as u64),
        None => None,
    }
}

/// Why the walk for `v` stops short, by the first level whose entry is
/// not present.
pub open spec fn spec_walk_error(m: Map<u64, Seq<u64>>, pml4: u64, v: u64) -> &'static str {
    match spec_next(m, pml4, spec_l4(v)) {
        None => "PML4 entry not present",
        Some(t3) => match spec_next(m, t3, spec_l3(v)) {
            None => "PDPT entry not present",
            Some(t2) => match spec_next(m, t2, spec_l2(v)) {
                None => "PD entry not present",
                Some(_) => "PT entry not present",
            },
        },
    }
}

/// Every table is held in a page the allocator has handed out.
pub open spec fn spec_frames_ok(m: Map<u64, Seq<u64>>, pmm: PhysicalMemoryManager) -> bool {
    forall|k: u64|
        #![trigger m.contains_key(k)]
        m.contains_key(k) ==> k as int / 4096 < pmm.spec_bitmap().len() * 64 && pmm.page_used(k as int / 4096)
}

/// The tables the walk for `v` passes through, as far as it goes, are
/// held.
pub open spec fn spec_path_held(m: Map<u64, Seq<u64>>, pml4: u64, v: u64) -> bool {
    &&& m.contains_key(pml4)
    &&& match spec_next(m, pml4, spec_l4(v)) {
        None => true,
        Some(t3) => {
            &&& m.contains_key(t3)
            &&& match spec_next(m, t3, spec_l3(v)) {
                None => true,
                Some(t2) => {
                    &&& m.contains_key(t2)
                    &&& match spec_next(m, t2, spec_l2(v)) {
                        None => true,
                        Some(t1) => m.contains_key(t1),
                    }
                },
            }
        },
    }
}

/// The bits of an entry set to a page-aligned address and flags.
pub open spec fn spec_entry_value(addr: u64, flags: u64) -> u64 {
    (addr & ADDR_MASK) | flags
}

/// The flags of a table entry made for a new table: present, writable,
/// user.
pub open spec fn spec_table_flags() -> u64 {
    7u64
}

/// An entry made from an address and flags with the present bit is
/// present, keeps the address when the flags have no address bit, and its
/// address fits below the mask.
proof fn lemma_entry_bits(a: u64, f: u64)
    by (bit_vector)
    ensures
        f & 1 == 1 ==> ((a & 0x000F_FFFF_FFFF_F000u64) | f) & 1 != 0,
        f & 0x000F_FFFF_FFFF_F000u64 == 0 ==> ((a & 0x000F_FFFF_FFFF_F000u64) | f) & 0x000F_FFFF_FFFF_F000u64 == a
            & 0x000F_FFFF_FFFF_F000u64,
        a & 0x000F_FFFF_FFFF_F000u64 <= 0x000F_FFFF_FFFF_F000u64,
        (a | 1) & 1 == 1,
        7u64 & 1 == 1,
        7u64 & 0x000F_FFFF_FFFF_F000u64 == 0,
        0u64 & 1 == 0,
        ((1u64 << 0u64) | (1u64 << 1u64)) | (1u64 << 2u64) == 7u64,
        1u64 << 0u64 == 1u64,
        f & 0x000F_FFFF_FFFF_F000u64 == 0 ==> (f | 1) & 0x000F_FFFF_FFFF_F000u64 == 0,
        a % 4096 == 0 && a < 0x10_0000_0000_0000u64 ==> a & 0x000F_FFFF_FFFF_F000u64 == a,
{
}

/// The allocator has no page to give: its free counter is zero or every
/// page it manages is used.
pub open spec fn spec_alloc_fails(pmm: PhysicalMemoryManager) -> bool {
    pmm.spec_free() == 0 || forall|q: int| 0 <= q < pmm.spec_total() ==> pmm.page_used(q)
}

/// Every present entry of `m` is still there, unchanged, in `m2`.
pub open spec fn spec_keeps_present(m: Map<u64, Seq<u64>>, m2: Map<u64, Seq<u64>>) -> bool {
    forall|t: u64, j: int|
        0 <= j < 512 && #[trigger] spec_present(spec_entry(m, t, j)) ==> spec_entry(m2, t, j) == spec_entry(m, t, j)
}

/// Mapping and then translating: once the last-level entry for `v` holds
/// a page-aligned frame with flags that have no address bits, `v` and
/// every address in its page translate into that frame.
pub proof fn lemma_translate_after_map(m: Map<u64, Seq<u64>>, pml4: u64, v: u64, phys: u64, flags: u64)
    requires
        spec_leaf(m, pml4, v) matches Some((_, e)) && e == spec_entry_value(phys, flags | 1),
        phys % 4096 == 0,
        phys < 0x10_0000_0000_0000,
        flags & ADDR_MASK == 0,
    ensures
        spec_translate(m, pml4, v) == Some((phys + v % 0x1000) as u64),
{
    lemma_entry_bits(phys, flags | 1);
    lemma_entry_bits(phys, flags);
}

/// Changes that keep every present entry keep every translation that
/// existed: mapping a page leaves the other pages where they were.
pub proof fn lemma_keeps_translation(m: Map<u64, Seq<u64>>, m2: Map<u64, Seq<u64>>, pml4: u64, v: u64)
    requires
        spec_keeps_present(m, m2),
        spec_translate(m, pml4, v) is Some,
    ensures
        spec_translate(m2, pml4, v) == spec_translate(m, pml4, v),
{
    let t3 = spec_next(m, pml4, spec_l4(v))->0;
    let t2 = spec_next(m, t3, spec_l3(v))->0;
    let t1 = spec_next(m, t2, spec_l2(v))->0;
    assert(spec_present(spec_entry(m, pml4, spec_l4(v))));
    assert(spec_present(spec_entry(m, t3, spec_l3(v))));
    assert(spec_present(spec_entry(m, t2, spec_l2(v))));
    assert(spec_present(spec_entry(m, t1, spec_l1(v))));
}

/// Unmapping and then translating: once the last-level entry the walk
/// for `v` ended at is cleared, `v` no longer translates.
pub proof fn lemma_translate_after_unmap(m: Map<u64, Seq<u64>>, pml4: u64, v: u64)
    requires
        spec_leaf(m, pml4, v) is Some,
        forall|k: u64| #[trigger] m.contains_key(k) ==> m[k].len() == 512,
    ensures
        ({
            let t1 = (spec_leaf(m, pml4, v)->0).0;
            spec_translate(m.insert(t1, spec_table(m, t1).update(spec_l1(v), 0)), pml4, v) is None
        }),
{
    lemma_entry_bits(0, 0);
    let t1 = (spec_leaf(m, pml4, v)->0).0;
    let m2 = m.insert(t1, spec_table(m, t1).update(spec_l1(v), 0));
    assert(spec_table(m, t1).len() == 512);
    assert(spec_entry(m2, t1, spec_l1(v)) == 0u64);
    assert forall|t: u64, j: int| 0 <= j < 512 && (t != t1 || j != spec_l1(v)) implies #[trigger] spec_entry(m2, t, j)
        == spec_entry(m, t, j) by {}
}

/// The page tables in physical memory, by the address of each table; a
/// page not held reads as zeros.
pub struct PageTableMemory {
    tables: BTreeMap<u64, PageTable>,
}

impl PageTableMemory {
    /// The tables' entries, by table address.
    pub closed spec fn spec_tables(&self) -> Map<u64, Seq<u64>> {
        self.tables@.map_values(|t: PageTable| t@)
    }

    /// Every table holds 512 entries.
    pub closed spec fn wf(&self) -> bool {
        forall|k: u64| #[trigger] self.tables@.contains_key(k) ==> self.tables@[k]@.len() == 512
    }

    /// No tables.
    pub fn new() -> (r: Self)
        ensures
            r.wf(),
            r.spec_tables() == Map::<u64, Seq<u64>>::empty(),
    {
        let r = PageTableMemory { tables: BTreeMap::new() };
        assert(r.spec_tables() =~= Map::<u64, Seq<u64>>::empty());
        r
    }

    /// Places a table of entries at `addr`, replacing what was there.
    pub fn insert(&mut self, addr: u64, table: PageTable)
        requires
            old(self).wf(),
        ensures
            final(self).wf(),
            final(self).spec_tables() == old(self).spec_tables().insert(addr, table@),
    {
        proof {
            table.lemma_len();
        }
        self.tables.insert(addr, table);
        assert(self.spec_tables() =~= old(self).spec_tables().insert(addr, table@));
    }

    /// The table held at `addr`, if any.
    pub fn table(&self, addr: u64) -> (r: Option<&PageTable>)
        ensures
            match r {
                Some(t) => self.spec_tables().contains_key(addr) && t@ == self.spec_tables()[addr],
                None => !self.spec_tables().contains_key(addr),
            },
    {
        self.tables.get(&addr)
    }

    /// Entry `index` of the table at `table`.
    pub fn read(&self, table: u64, index: usize) -> (r: PageTableEntry)
        requires
            self.wf(),
            index < 512,
        ensures
            r@ == spec_entry(self.spec_tables(), table, index as int),
    {
        match self.tables.get(&table) {
            Some(t) => *t.entry(index),
            None => PageTableEntry::new(),
        }
    }

    /// Sets entry `index` of the table at `table` (a zero table if none is
    /// held there) to `addr` with `flags`.
    fn set_entry(&mut self, table: u64, index: usize, addr: u64, flags: PageTableFlags)
        requires
            old(self).wf(),
            index < 512,
            addr % 4096 == 0,
        ensures
            final(self).wf(),
            final(self).spec_tables() == old(self).spec_tables().insert(
                table,
                spec_table(old(self).spec_tables(), table).update(index as int, spec_entry_value(addr, flags@)),
            ),
    {
        let mut t = match self.tables.remove(&table) {
            Some(t) => t,
            None => PageTable::new(),
        };
        proof {
            t.lemma_len();
        }
        t.entry_mut(index).set(addr, flags);
        self.tables.insert(table, t);
        assert(self.spec_tables() =~= old(self).spec_tables().insert(
            table,
            spec_table(old(self).spec_tables(), table).update(index as int, spec_entry_value(addr, flags@)),
        ));
    }

    /// Clears entry `index` of the table at `table`, if one is held there.
    fn clear_entry(&mut self, table: u64, index: usize)
        requires
            old(self).wf(),
            index < 512,
            old(self).spec_tables().contains_key(table),
        ensures
            final(self).wf(),
            final(self).spec_tables() == old(self).spec_tables().insert(
                table,
                old(self).spec_tables()[table].update(index as int, 0),
            ),
    {
        let mut t = match self.tables.remove(&table) {
            Some(t) => t,
            None => PageTable::new(),
        };
        t.entry_mut(index).clear();
        self.tables.insert(table, t);
        assert(self.spec_tables() =~= old(self).spec_tables().insert(
            table,
            old(self).spec_tables()[table].update(index as int, 0),
        ));
    }
}

/// The page tables of one address space: where its top-level table is,
/// and where the direct map of physical memory starts.
pub struct PageTableMapper {
    pml4_phys: u64,
    hhdm_offset: u64,
}

impl PageTableMapper {
    /// The top-level table's physical address.
    pub closed spec fn spec_pml4(&self) -> u64 {
        self.pml4_phys
    }

    /// The start of the direct map.
    pub closed spec fn spec_hhdm(&self) -> u64 {
        self.hhdm_offset
    }

    /// A mapper for the tables whose top level is at `pml4_phys`.
    pub fn from_pml4(pml4_phys: u64, hhdm_offset: u64) -> (r: Self)
        ensures
            r.spec_pml4() == pml4_phys,
            r.spec_hhdm() == hhdm_offset,
    {
        PageTableMapper { pml4_phys, hhdm_offset }
    }

    /// A mapper with a new, empty top-level table taken from the
    /// allocator; `None` when no page is free.
    pub fn new(mem: &mut PageTableMemory, pmm: &mut PhysicalMemoryManager, hhdm_offset: u64) -> (r: Option<Self>)
        requires
            old(mem).wf(),
            old(pmm).wf(),
            spec_frames_ok(old(mem).spec_tables(), *old(pmm)),
        ensures
            final(mem).wf(),
            final(pmm).wf(),
            spec_frames_ok(final(mem).spec_tables(), *final(pmm)),
            r is None <==> spec_alloc_fails(*old(pmm)),
            final(pmm).spec_total() == old(pmm).spec_total(),
            match r {
                Some(mapper) => {
                    let p = mapper.spec_pml4() as int / 4096;
                    &&& mapper.spec_hhdm() == hhdm_offset
                    &&& mapper.spec_pml4() % 4096 == 0
                    &&& p < old(pmm).spec_total()
                    &&& !old(pmm).page_used(p)
                    &&& forall|q: int| 0 <= q < p ==> old(pmm).page_used(q)
                    &&& final(pmm).spec_free() == old(pmm).spec_free() - 1
                    &&& !old(mem).spec_tables().contains_key(mapper.spec_pml4())
                    &&& final(mem).spec_tables() == old(mem).spec_tables().insert(mapper.spec_pml4(), spec_zero_table())
                },
                None => final(mem).spec_tables() == old(mem).spec_tables() && final(pmm).spec_free() == old(pmm).spec_free()
                    && final(pmm).spec_bitmap() == old(pmm).spec_bitmap(),
            },
    {
        let phys = match pmm.alloc_page() {
            Some(p) => p,
            None => {
                proof {
                    assert forall|q: int| 0 <= q < pmm.spec_total() implies pmm.page_used(q) == old(pmm).page_used(q) by {}
                }
                return None;
            },
        };
        proof {
            old(pmm).lemma_bitmap_covers_total();
            if old(mem).spec_tables().contains_key(phys) {
                assert(old(pmm).page_used(phys as int / 4096));
            }
        }
        mem.insert(phys, PageTable::new());
        Some(PageTableMapper { pml4_phys: phys, hhdm_offset })
    }

    /// The table entry `index` of the table at `table` points to, making
    /// a new empty table from the allocator when the entry is not
    /// present; `None` when that needs a page and none is free.
    fn next_table(
        &self,
        mem: &mut PageTableMemory,
        pmm: &mut PhysicalMemoryManager,
        table: u64,
        index: usize,
    ) -> (r: Option<u64>)
        requires
            old(mem).wf(),
            old(pmm).wf(),
            spec_frames_ok(old(mem).spec_tables(), *old(pmm)),
            old(mem).spec_tables().contains_key(table),
            old(pmm).spec_total() * 4096 <= 0x10_0000_0000_0000,
            index < 512,
        ensures
            final(mem).wf(),
            final(pmm).wf(),
            spec_frames_ok(final(mem).spec_tables(), *final(pmm)),
            final(pmm).spec_total() == old(pmm).spec_total(),
            forall|k: u64| old(mem).spec_tables().contains_key(k) ==> #[trigger] final(mem).spec_tables().contains_key(k),
            !spec_present(spec_entry(old(mem).spec_tables(), table, index as int)) ==> (r matches Some(t)
                ==> final(mem).spec_tables().contains_key(t) && spec_table(final(mem).spec_tables(), t) == spec_zero_table()),
            spec_keeps_present(old(mem).spec_tables(), final(mem).spec_tables()),
            spec_present(spec_entry(old(mem).spec_tables(), table, index as int)) ==> {
                &&& r == spec_next(old(mem).spec_tables(), table, index as int)
                &&& final(mem).spec_tables() == old(mem).spec_tables()
                &&& *final(pmm) == *old(pmm)
            },
            !spec_present(spec_entry(old(mem).spec_tables(), table, index as int)) ==> (r is None
                <==> spec_alloc_fails(*old(pmm))),
            r is None ==> final(mem).spec_tables() == old(mem).spec_tables() && spec_alloc_fails(*final(pmm)),
            r matches Some(t) ==> spec_next(final(mem).spec_tables(), table, index as int) == Some(t),
    {
        let e = mem.read(table, index);
        if e.is_present() {
            return Some(e.addr());
        }
        let ghost m0 = mem.spec_tables();
        let phys = match pmm.alloc_page() {
            Some(p) => p,
            None => {
                proof {
                    assert forall|q: int| 0 <= q < pmm.spec_total() implies pmm.page_used(q) == old(pmm).page_used(q) by {}
                }
                return None;
            },
        };
        proof {
            old(pmm).lemma_bitmap_covers_total();
            if m0.contains_key(phys) {
                assert(old(pmm).page_used(phys as int / 4096));
            }
        }
        mem.insert(phys, PageTable::new());
        let ghost m1 = mem.spec_tables();
        let flags = PageTableFlags::present().with(PageTableFlags::writable()).with(PageTableFlags::user());
        proof {
            lemma_entry_bits(0, 0);
            assert(flags@ == 7u64);
        }
        mem.set_entry(table, index, phys, flags);
        proof {
            lemma_entry_bits(phys, 7);
            let m2 = mem.spec_tables();
            assert forall|t: u64, j: int|
                0 <= j < 512 && #[trigger] spec_present(spec_entry(m0, t, j)) implies spec_entry(m2, t, j) == spec_entry(
                m0,
                t,
                j,
            ) by {
                lemma_entry_bits(0, 0);
            }
            assert(phys & ADDR_MASK == phys) by {
                lemma_entry_bits(phys, 0);
            }
        }
        Some(phys & ADDR_MASK)
    }

    /// Maps the page at `virt_addr` to the frame at `phys_addr` with
    /// `flags` (and present), making the missing tables on the way from
    /// the allocator.
    pub fn map(
        &mut self,
        mem: &mut PageTableMemory,
        virt_addr: u64,
        phys_addr: u64,
        flags: PageTableFlags,
        pmm: &mut PhysicalMemoryManager,
    ) -> (r: Result<(), &'static str>)
        requires
            old(mem).wf(),
            old(pmm).wf(),
            spec_frames_ok(old(mem).spec_tables(), *old(pmm)),
            spec_path_held(old(mem).spec_tables(), old(self).spec_pml4(), virt_addr),
            old(pmm).spec_total() * 4096 <= 0x10_0000_0000_0000,
        ensures
            final(mem).wf(),
            final(pmm).wf(),
            spec_frames_ok(final(mem).spec_tables(), *final(pmm)),
            *final(self) == *old(self),
            spec_keeps_present(old(mem).spec_tables(), final(mem).spec_tables()),
            virt_addr % 4096 != 0 || phys_addr % 4096 != 0 ==> r == Err::<(), &'static str>(
                "Addresses must be page-aligned",
            ) && final(mem).spec_tables() == old(mem).spec_tables() && *final(pmm) == *old(pmm),
            virt_addr % 4096 == 0 && phys_addr % 4096 == 0 ==> {
                let m = old(mem).spec_tables();
                let pml4 = old(self).spec_pml4();
                &&& spec_leaf(m, pml4, virt_addr) is Some ==> r == Err::<(), &'static str>(
                    "Virtual address already mapped",
                ) && final(mem).spec_tables() == m && *final(pmm) == *old(pmm)
                &&& (r == Err::<(), &'static str>("Failed to allocate PDPT") <==> spec_next(m, pml4, spec_l4(virt_addr))
                    is None && spec_alloc_fails(*old(pmm)))
                &&& r == Err::<(), &'static str>("Failed to allocate PD") ==> spec_alloc_fails(*final(pmm))
                &&& r == Err::<(), &'static str>("Failed to allocate PT") ==> spec_alloc_fails(*final(pmm))
                &&& (spec_next(m, pml4, spec_l4(virt_addr)) matches Some(t3) && spec_next(m, t3, spec_l3(virt_addr))
                    is None && spec_alloc_fails(*old(pmm))) ==> r == Err::<(), &'static str>("Failed to allocate PD")
                &&& (spec_next(m, pml4, spec_l4(virt_addr)) matches Some(t3) && spec_next(m, t3, spec_l3(virt_addr))
                    matches Some(t2) && spec_next(m, t2, spec_l2(virt_addr)) is None && spec_alloc_fails(*old(pmm)))
                    ==> r == Err::<(), &'static str>("Failed to allocate PT")
                &&& r is Ok ==> (spec_leaf(final(mem).spec_tables(), pml4, virt_addr) matches Some((_, e)) && e
                    == spec_entry_value(phys_addr, flags@ | 1))
            },
    {
        if virt_addr % 4096 != 0 || phys_addr % 4096 != 0 {
            return Err("Addresses must be page-aligned");
        }
        let ghost m0 = mem.spec_tables();
        let ghost p0 = *pmm;
        let i4 = pml4_index(virt_addr);
        let i3 = pdpt_index(virt_addr);
        let i2 = pd_index(virt_addr);
        let i1 = pt_index(virt_addr);
        proof {
            reveal_strlit("Failed to allocate PDPT");
            reveal_strlit("Failed to allocate PD");
            reveal_strlit("Failed to allocate PT");
            reveal_strlit("Virtual address already mapped");
        }
        let t3 = match self.next_table(mem, pmm, self.pml4_phys, i4) {
            Some(t) => t,
            None => return Err("Failed to allocate PDPT"),
        };
        let ghost m1 = mem.spec_tables();
        let t2 = match self.next_table(mem, pmm, t3, i3) {
            Some(t) => t,
            None => {
                proof {
                    assert(spec_next(m0, self.pml4_phys, i4 as int) is Some || !spec_alloc_fails(p0));
                }
                return Err("Failed to allocate PD");
            },
        };
        let ghost m2 = mem.spec_tables();
        proof {
            lemma_entry_bits(0, 0);
            if spec_present(spec_entry(m1, t3, i3 as int)) {
                if !spec_present(spec_entry(m0, self.pml4_phys, i4 as int)) {
                    assert(spec_entry(m1, t3, i3 as int) == 0u64);
                }
                assert(m1 == m0);
                assert(m0.contains_key(t2));
            }
        }
        let t1 = match self.next_table(mem, pmm, t2, i2) {
            Some(t) => t,
            None => return Err("Failed to allocate PT"),
        };
        let ghost m3 = mem.spec_tables();
        let e = mem.read(t1, i1);
        if e.is_present() {
            return Err("Virtual address already mapped");
        }
        let entry_flags = flags.with(PageTableFlags::present());
        mem.set_entry(t1, i1, phys_addr, entry_flags);
        proof {
            let m4 = mem.spec_tables();
            lemma_entry_bits(phys_addr, entry_flags@);
            lemma_entry_bits(0, 0);
            lemma_entry_bits(flags@, 0);
            assert(entry_flags@ & 1 == 1);
            assert(spec_keeps_present(m3, m4));
            assert(spec_next(m4, self.pml4_phys, i4 as int) == Some(t3));
            assert(spec_next(m4, t3, i3 as int) == Some(t2));
            assert(spec_next(m4, t2, i2 as int) == Some(t1));
            assert(spec_keeps_present(m0, m4));
        }
        Ok(())
    }

    /// The top-level table's physical address.
    pub fn pml4_addr(&self) -> (r: u64)
        ensures
            r == self.spec_pml4(),
    {
        self.pml4_phys
    }

    /// The physical address `virt_addr` maps to.
    pub fn translate(&self, mem: &PageTableMemory, virt_addr: u64) -> (r: Option<u64>)
        requires
            mem.wf(),
        ensures
            r == spec_translate(mem.spec_tables(), self.spec_pml4(), virt_addr),
    {
        let e4 = mem.read(self.pml4_phys, pml4_index(virt_addr));
        if !e4.is_present() {
            return None;
        }
        let e3 = mem.read(e4.addr(), pdpt_index(virt_addr));
        if !e3.is_present() {
            return None;
        }
        let e2 = mem.read(e3.addr(), pd_index(virt_addr));
        if !e2.is_present() {
            return None;
        }
        let e1 = mem.read(e2.addr(), pt_index(virt_addr));
        if !e1.is_present() {
            return None;
        }
        proof {
            lemma_entry_bits(e1@, 0);
        }
        Some(e1.addr() + page_offset(virt_addr))
    }

    /// Unmaps the page at `virt_addr`: clears its last-level entry and
    /// returns the page's address.
    pub fn unmap(&mut self, mem: &mut PageTableMemory, virt_addr: u64) -> (r: Result<u64, &'static str>)
        requires
            old(mem).wf(),
        ensures
            final(mem).wf(),
            *final(self) == *old(self),
            virt_addr % 4096 != 0 ==> r == Err::<u64, &'static str>("Address must be page-aligned")
                && final(mem).spec_tables() == old(mem).spec_tables(),
            virt_addr % 4096 == 0 ==> match spec_leaf(old(mem).spec_tables(), old(self).spec_pml4(), virt_addr) {
                Some((t1, e)) => {
                    &&& r == Ok::<u64, &'static str>(e & ADDR_MASK)
                    &&& final(mem).spec_tables() == old(mem).spec_tables().insert(
                        t1,
                        spec_table(old(mem).spec_tables(), t1).update(spec_l1(virt_addr), 0),
                    )
                },
                None => {
                    &&& r == Err::<u64, &'static str>(
                        spec_walk_error(old(mem).spec_tables(), old(self).spec_pml4(), virt_addr),
                    )
                    &&& final(mem).spec_tables() == old(mem).spec_tables()
                },
            },
    {
        if virt_addr % 4096 != 0 {
            return Err("Address must be page-aligned");
        }
        let e4 = mem.read(self.pml4_phys, pml4_index(virt_addr));
        if !e4.is_present() {
            return Err("PML4 entry not present");
        }
        let e3 = mem.read(e4.addr(), pdpt_index(virt_addr));
        if !e3.is_present() {
            return Err("PDPT entry not present");
        }
        let e2 = mem.read(e3.addr(), pd_index(virt_addr));
        if !e2.is_present() {
            return Err("PD entry not present");
        }
        let t1 = e2.addr();
        let idx = pt_index(virt_addr);
        let e1 = mem.read(t1, idx);
        if !e1.is_present() {
            return Err("PT entry not present");
        }
        let phys = e1.addr();
        proof {
            lemma_entry_bits(0, 0);
        }
        mem.clear_entry(t1, idx);
        Ok(phys)
    }
}

} // verus!
