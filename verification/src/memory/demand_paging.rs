//! Demand paging and LRU page replacement.
//!
//! `DemandPagingManager` records, per virtual page, whether it is reserved
//! but not yet backed, resident, or swapped out. `LruPageManager` keeps the
//! resident pages in least-recently-used order and picks eviction victims.

use std::collections::{BTreeMap, VecDeque};
use vstd::prelude::*;
use super::addr::{PhysAddr, VirtAddr, PAGE_SIZE};

verus! {

broadcast use {
    vstd::laws_cmp::group_laws_cmp,
    vstd::seq_lib::group_filter_ensures,
    vstd::std_specs::vecdeque::group_vec_dequeue_axioms,
    vstd::std_specs::btree::group_btree_axioms,
    vstd::seq_lib::group_seq_properties,
};

/// The state of a demand-paged page.
#[derive(Debug, Clone, Copy, PartialEq, Eq, Structural)]
pub enum PageState {
    /// Reserved but not backed by a physical page yet.
    NotAllocated,
    /// Backed by a physical page.
    InMemory,
    /// Written out to swap.
    SwappedOut,
}

/// One tracked page of the LRU queue.
#[derive(Debug, Clone)]
struct LruPage {
    virt_addr: u64,
    phys_addr: u64,
    access_count: usize,
}

/// The queue entries as (virtual address, physical address, access count).
pub open spec fn spec_entries_virts(q: Seq<(u64, u64, usize)>) -> Set<u64> {
    Set::new(|v: u64| exists|i: int| 0 <= i < q.len() && #[trigger] q[i].0 == v)
}

/// Position of the entry for `v` in the queue (meaningful when present).
pub open spec fn spec_position(q: Seq<(u64, u64, usize)>, v: u64) -> int {
    choose|i: int| 0 <= i < q.len() && q[i].0 == v
}

/// No virtual address appears twice in the queue.
pub open spec fn spec_distinct_virts(q: Seq<(u64, u64, usize)>) -> bool {
    forall|i: int, j: int| 0 <= i < q.len() && 0 <= j < q.len() && i != j ==> q[i].0 != q[j].0
}

/// The queue after an access to `(v, p)` with room for `max` pages: a
/// tracked page moves to the back with one more access (its physical
/// address is kept); a new page is appended with one access, after the
/// front page was evicted when the queue was full.
pub open spec fn spec_after_access(q: Seq<(u64, u64, usize)>, max: usize, v: u64, p: u64) -> Seq<
    (u64, u64, usize),
> {
    if spec_entries_virts(q).contains(v) {
        let i = spec_position(q, v);
        q.remove(i).push((v, q[i].1, (q[i].2 + 1) as usize))
    } else if q.len() >= max && q.len() > 0 {
        q.subrange(1, q.len() as int).push((v, p, 1usize))
    } else {
        q.push((v, p, 1usize))
    }
}

/// Sum of the access counts of the entries.
pub open spec fn spec_total_accesses(q: Seq<(u64, u64, usize)>) -> int
    decreases q.len(),
{
    if q.len() == 0 {
        0
    } else {
        spec_total_accesses(q.drop_last()) + q.last().2
    }
}

/// LRU statistics.
#[derive(Debug, Clone, Copy)]
pub struct LruStats {
    /// Number of pages currently tracked.
    pub tracked_pages: usize,
    /// Maximum number of pages tracked.
    pub max_pages: usize,
    /// Total number of recorded accesses of the tracked pages.
    pub total_accesses: usize,
}

/// Least-recently-used order of resident pages, front first.
pub struct LruPageManager {
    page_queue: VecDeque<LruPage>,
    page_map: BTreeMap<u64, usize>,
    max_pages: usize,
}

impl View for LruPageManager {
    type V = Seq<(u64, u64, usize)>;

    closed spec fn view(&self) -> Seq<(u64, u64, usize)> {
        self.page_queue@.map_values(|p: LruPage| (p.virt_addr, p.phys_addr, p.access_count))
    }
}

impl LruPageManager {
    spec fn map_matches(map: Map<u64, usize>, q: Seq<(u64, u64, usize)>) -> bool {
        &&& forall|i: int| 0 <= i < q.len() ==> #[trigger] map.contains_key(q[i].0) && map[q[i].0] == i
        &&& forall|v: u64| #[trigger] map.contains_key(v) ==> map[v] < q.len() && q[map[v] as int].0 == v
    }

    /// The index map agrees with the queue, addresses are distinct, and the
    /// queue holds at most `max(max_pages, 1)` pages.
    pub closed spec fn wf(&self) -> bool {
        &&& spec_distinct_virts(self@)
        &&& Self::map_matches(self.page_map@, self@)
        &&& (self@.len() <= self.max_pages || self@.len() <= 1)
    }

    /// The capacity given at creation.
    pub closed spec fn max(&self) -> usize {
        self.max_pages
    }

    /// A valid manager tracks each address once and holds at most
    /// `max(max_pages, 1)` pages.
    pub proof fn lemma_wf_queue(&self)
        requires
            self.wf(),
        ensures
            spec_distinct_virts(self@),
            self@.len() <= self.max() || self@.len() <= 1,
    {
    }

    /// Creates an empty manager for at most `max_pages` pages.
    pub fn new(max_pages: usize) -> (r: Self)
        ensures
            r.wf(),
            r@ == Seq::<(u64, u64, usize)>::empty(),
            r.max() == max_pages,
    {
        let r = LruPageManager {
            page_queue: VecDeque::with_capacity(max_pages),
            page_map: BTreeMap::new(),
            max_pages,
        };
        assert(r@ =~= Seq::<(u64, u64, usize)>::empty());
        r
    }

    /// Rebuilds the index map from the queue.
    fn rebuild_map(&mut self)
        requires
            spec_distinct_virts(old(self)@),
        ensures
            final(self)@ == old(self)@,
            final(self).max_pages == old(self).max_pages,
            Self::map_matches(final(self).page_map@, final(self)@),
    {
        self.page_map.clear();
        let mut i: usize = 0;
        let n = self.page_queue.len();
        while i < n
            invariant
                n == self@.len(),
                self@ == old(self)@,
                self.max_pages == old(self).max_pages,
                spec_distinct_virts(self@),
                0 <= i <= n,
                forall|j: int| 0 <= j < i ==> #[trigger] self.page_map@.contains_key(self@[j].0)
                    && self.page_map@[self@[j].0] == j,
                forall|v: u64| #[trigger]
                    self.page_map@.contains_key(v) ==> self.page_map@[v] < i && self@[self.page_map@[v] as int].0 == v,
            decreases n - i,
        {
            let v = self.page_queue[i].virt_addr;
            assert(v == self@[i as int].0);
            self.page_map.insert(v, i);
            i = i + 1;
        }
    }

    /// Records an access to the page `virt_addr` (backed by `phys_addr`):
    /// a tracked page becomes the most recently used one; a new page is
    /// appended, evicting the least recently used page when full.
    pub fn access_page(&mut self, virt_addr: VirtAddr, phys_addr: PhysAddr)
        requires
            old(self).wf(),
            spec_entries_virts(old(self)@).contains(virt_addr@) ==> old(self)@[spec_position(
                old(self)@,
                virt_addr@,
            )].2 < usize::MAX,
        ensures
            final(self).wf(),
            final(self).max() == old(self).max(),
            final(self)@ == spec_after_access(old(self)@, old(self).max(), virt_addr@, phys_addr@),
    {
        let virt = virt_addr.as_u64();
        let phys = phys_addr.as_u64();
        let ghost q0 = self@;
        match self.page_map.get(&virt) {
            Some(index_ref) => {
                let index = *index_ref;
                assert(q0[index as int].0 == virt);
                assert(spec_entries_virts(q0).contains(virt));
                let ghost pos = spec_position(q0, virt);
                assert(pos == index as int);
                match self.page_queue.remove(index) {
                    Some(page) => {
                        let mut page = page;
                        page.access_count = page.access_count + 1;
                        self.page_queue.push_back(page);
                        assert(self@ =~= q0.remove(pos).push((virt, q0[pos].1, (q0[pos].2 + 1) as usize)));
                        self.rebuild_map();
                    },
                    None => {},
                }
            },
            None => {
                assert(!spec_entries_virts(q0).contains(virt)) by {
                    if spec_entries_virts(q0).contains(virt) {
                        let i = choose|i: int| 0 <= i < q0.len() && #[trigger] q0[i].0 == virt;
                        assert(self.page_map@.contains_key(q0[i].0));
                    }
                }
                if self.page_queue.len() >= self.max_pages {
                    match self.page_queue.pop_front() {
                        Some(removed) => {
                            self.page_map.remove(&removed.virt_addr);
                        },
                        None => {},
                    }
                }
                let ghost q1 = self@;
                let page = LruPage { virt_addr: virt, phys_addr: phys, access_count: 1 };
                self.page_queue.push_back(page);
                assert(self@ =~= q1.push((virt, phys, 1usize)));
                assert(self@ =~= spec_after_access(q0, self.max_pages, virt, phys));
                self.rebuild_map();
            },
        }
    }

    /// The least recently used page, if any.
    pub fn get_lru_page(&self) -> (r: Option<(VirtAddr, PhysAddr)>)
        ensures
            match r {
                Some((v, p)) => self@.len() > 0 && v@ == self@[0].0 && p@ == self@[0].1,
                None => self@.len() == 0,
            },
    {
        if self.page_queue.len() > 0 {
            let page = &self.page_queue[0];
            Some((VirtAddr::new(page.virt_addr), PhysAddr::new(page.phys_addr)))
        } else {
            None
        }
    }

    /// Stops tracking the page `virt_addr`.
    pub fn remove_page(&mut self, virt_addr: VirtAddr)
        requires
            old(self).wf(),
        ensures
            final(self).wf(),
            final(self).max() == old(self).max(),
            final(self)@ == (if spec_entries_virts(old(self)@).contains(virt_addr@) {
                old(self)@.remove(spec_position(old(self)@, virt_addr@))
            } else {
                old(self)@
            }),
    {
        let virt = virt_addr.as_u64();
        let ghost q0 = self@;
        match self.page_map.get(&virt) {
            Some(index_ref) => {
                let index = *index_ref;
                assert(q0[index as int].0 == virt);
                assert(spec_entries_virts(q0).contains(virt));
                self.page_queue.remove(index);
                self.page_map.remove(&virt);
                assert(self@ =~= q0.remove(index as int));
                self.rebuild_map();
            },
            None => {
                assert(!spec_entries_virts(q0).contains(virt)) by {
                    if spec_entries_virts(q0).contains(virt) {
                        let i = choose|i: int| 0 <= i < q0.len() && #[trigger] q0[i].0 == virt;
                        assert(self.page_map@.contains_key(q0[i].0));
                    }
                }
            },
        }
    }

    /// Number of tracked pages.
    pub fn page_count(&self) -> (r: usize)
        ensures
            r == self@.len(),
    {
        self.page_queue.len()
    }

    /// Whether the page `virt_addr` is tracked.
    pub fn contains(&self, virt_addr: VirtAddr) -> (r: bool)
        requires
            self.wf(),
        ensures
            r == spec_entries_virts(self@).contains(virt_addr@),
    {
        let r = self.page_map.contains_key(&virt_addr.as_u64());
        proof {
            if r {
                assert(self@[self.page_map@[virt_addr@] as int].0 == virt_addr@);
            } else if spec_entries_virts(self@).contains(virt_addr@) {
                let i = choose|i: int| 0 <= i < self@.len() && #[trigger] self@[i].0 == virt_addr@;
                assert(self.page_map@.contains_key(self@[i].0));
            }
        }
        r
    }

    /// How often the page `virt_addr` was accessed, if it is tracked.
    pub fn access_count(&self, virt_addr: VirtAddr) -> (r: Option<usize>)
        requires
            self.wf(),
        ensures
            spec_entries_virts(self@).contains(virt_addr@) ==> r == Some(self@[spec_position(self@, virt_addr@)].2),
            !spec_entries_virts(self@).contains(virt_addr@) ==> r is None,
    {
        let v = virt_addr.as_u64();
        match self.page_map.get(&v) {
            Some(index_ref) => {
                let index = *index_ref;
                let q = &self.page_queue;
                proof {
                    assert(self@[index as int].0 == v);
                    assert(spec_entries_virts(self@).contains(v));
                    let i = spec_position(self@, v);
                    assert(0 <= i < self@.len() && self@[i].0 == v);
                }
                Some(q[index].access_count)
            },
            None => {
                proof {
                    if spec_entries_virts(self@).contains(v) {
                        let i = choose|i: int| 0 <= i < self@.len() && #[trigger] self@[i].0 == v;
                        assert(self.page_map@.contains_key(self@[i].0));
                    }
                }
                None
            },
        }
    }

    /// Number of tracked pages, the capacity and the total number of
    /// accesses of the tracked pages.
    pub fn get_stats(&self) -> (r: LruStats)
        requires
            spec_total_accesses(self@) <= usize::MAX,
        ensures
            r.tracked_pages == self@.len(),
            r.max_pages == self.max(),
            r.total_accesses == spec_total_accesses(self@),
    {
        let mut total: usize = 0;
        let mut i: usize = 0;
        let n = self.page_queue.len();
        while i < n
            invariant
                n == self@.len(),
                0 <= i <= n,
                total == spec_total_accesses(self@.take(i as int)),
                spec_total_accesses(self@) <= usize::MAX,
            decreases n - i,
        {
            proof {
                assert(self@.take(i as int + 1).drop_last() =~= self@.take(i as int));
                lemma_total_prefix_bound(self@, i as int + 1);
            }
            total = total + self.page_queue[i].access_count;
            i = i + 1;
        }
        assert(self@.take(n as int) =~= self@);
        LruStats { tracked_pages: n, max_pages: self.max_pages, total_accesses: total }
    }
}

proof fn lemma_total_prefix_bound(q: Seq<(u64, u64, usize)>, k: int)
    requires
        0 <= k <= q.len(),
    ensures
        spec_total_accesses(q.take(k)) <= spec_total_accesses(q),
    decreases q.len() - k,
{
    if k < q.len() {
        lemma_total_prefix_bound(q, k + 1);
        assert(q.take(k + 1).drop_last() =~= q.take(k));
    } else {
        assert(q.take(k) =~= q);
    }
}

/// Every access keeps the queue within its capacity (at least one page
/// always fits) and leaves the accessed page as the most recently used one.
pub proof fn lemma_access_keeps_capacity(q: Seq<(u64, u64, usize)>, max: usize, v: u64, p: u64)
    requires
        q.len() <= max || q.len() <= 1,
        spec_distinct_virts(q),
    ensures
        spec_after_access(q, max, v, p).len() <= max || spec_after_access(q, max, v, p).len() <= 1,
        spec_after_access(q, max, v, p).last().0 == v,
        spec_distinct_virts(spec_after_access(q, max, v, p)),
{
    let r = spec_after_access(q, max, v, p);
    if spec_entries_virts(q).contains(v) {
        let i = spec_position(q, v);
        assert forall|a: int, b: int| 0 <= a < r.len() && 0 <= b < r.len() && a != b implies r[a].0
            != r[b].0 by {
            if a < r.len() - 1 && b < r.len() - 1 {
                let a0 = if a < i { a } else { a + 1 };
                let b0 = if b < i { b } else { b + 1 };
                assert(q[a0].0 != q[b0].0);
            } else if a < r.len() - 1 {
                let a0 = if a < i { a } else { a + 1 };
                assert(q[a0].0 != q[i].0);
            } else {
                let b0 = if b < i { b } else { b + 1 };
                assert(q[b0].0 != q[i].0);
            }
        }
    } else {
        assert forall|a: int, b: int| 0 <= a < r.len() && 0 <= b < r.len() && a != b implies r[a].0
            != r[b].0 by {
            let off = if q.len() >= max && q.len() > 0 { 1int } else { 0int };
            if a < r.len() - 1 && b < r.len() - 1 {
                assert(q[a + off].0 != q[b + off].0);
            } else if a < r.len() - 1 {
                assert(q[a + off].0 != v) by {
                    if q[a + off].0 == v {
                        assert(spec_entries_virts(q).contains(v));
                    }
                }
            } else {
                assert(q[b + off].0 != v) by {
                    if q[b + off].0 == v {
                        assert(spec_entries_virts(q).contains(v));
                    }
                }
            }
        }
    }
}

/// The virtual addresses of the queue, least recently used first.
pub open spec fn spec_queue_virts(q: Seq<(u64, u64, usize)>) -> Seq<u64> {
    q.map_values(|e: (u64, u64, usize)| e.0)
}

/// The order an access leaves: a tracked page leaves its place (where no
/// other entry has its address) and goes to the back with one more access;
/// a new page goes to the back, and when the queue is full only the least
/// recently used page at the front is evicted.
pub proof fn lemma_access_order(q: Seq<(u64, u64, usize)>, max: usize, v: u64, p: u64)
    requires
        spec_distinct_virts(q),
    ensures
        ({
            let a = spec_after_access(q, max, v, p);
            let s = spec_queue_virts(q);
            let t = spec_queue_virts(a);
            &&& spec_entries_virts(q).contains(v) ==> {
                let i = spec_position(q, v);
                &&& 0 <= i < q.len() && s[i] == v
                &&& forall|j: int| 0 <= j < q.len() && j != i ==> s[j] != v
                &&& t == s.remove(i).push(v)
                &&& a.len() == q.len()
                &&& a.last() == (v, q[i].1, (q[i].2 + 1) as usize)
            }
            &&& !spec_entries_virts(q).contains(v) && q.len() >= max && q.len() > 0 ==> t == s.drop_first().push(v)
                && a.len() == q.len()
            &&& !spec_entries_virts(q).contains(v) && !(q.len() >= max && q.len() > 0) ==> t == s.push(v) && a.len()
                == q.len() + 1
            &&& !spec_entries_virts(q).contains(v) ==> a.last() == (v, p, 1usize)
        }),
{
    let a = spec_after_access(q, max, v, p);
    let s = spec_queue_virts(q);
    let t = spec_queue_virts(a);
    if spec_entries_virts(q).contains(v) {
        assert(exists|i: int| 0 <= i < q.len() && #[trigger] q[i].0 == v);
        let i = spec_position(q, v);
        assert(0 <= i < q.len() && q[i].0 == v);
        assert(t =~= s.remove(i).push(v));
    } else if q.len() >= max && q.len() > 0 {
        assert(t =~= s.drop_first().push(v));
    } else {
        assert(t =~= s.push(v));
    }
}

/// Address of the `k`-th page from `start`.
pub open spec fn spec_page_at(start: u64, k: int) -> int {
    start + k * 4096
}

/// Whether `v` is one of the `n` pages from `start`.
pub open spec fn spec_in_reserved(start: u64, n: int, v: u64) -> bool {
    exists|k: int| 0 <= k < n && v == #[trigger] spec_page_at(start, k)
}

/// The states after reserving `n` pages from `start` on top of `m`.
pub open spec fn spec_reserve(m: Map<u64, PageState>, start: u64, n: int) -> Map<u64, PageState> {
    m.union_prefer_right(Map::new(|v: u64| spec_in_reserved(start, n, v), |v: u64| PageState::NotAllocated))
}

/// The state reported for `v`: untracked pages count as not allocated.
pub open spec fn spec_state_of(m: Map<u64, PageState>, v: u64) -> PageState {
    if m.contains_key(v) {
        m[v]
    } else {
        PageState::NotAllocated
    }
}

/// Number of tracked pages in state `s`.
pub open spec fn spec_count_state(m: Map<u64, PageState>, s: PageState) -> nat {
    m.dom().filter(spec_has_state(m, s)).len()
}

/// Whether `m` maps a key to state `s`.
pub open spec fn spec_has_state(m: Map<u64, PageState>, s: PageState) -> spec_fn(u64) -> bool {
    |k: u64| m[k] == s
}

/// Number of keys of `ks` that `m` maps to state `s`.
pub open spec fn spec_count_keys(ks: Seq<u64>, m: Map<u64, PageState>, s: PageState) -> nat {
    ks.filter(spec_has_state(m, s)).len()
}

proof fn lemma_count_keys_push(ks: Seq<u64>, k: u64, m: Map<u64, PageState>, s: PageState)
    ensures
        spec_count_keys(ks.push(k), m, s) == spec_count_keys(ks, m, s) + (if m[k] == s { 1nat } else { 0nat }),
{
    ks.lemma_filter_push(k, spec_has_state(m, s));
}

proof fn lemma_count_keys_le(ks: Seq<u64>, m: Map<u64, PageState>, s: PageState)
    ensures
        spec_count_keys(ks, m, s) <= ks.len(),
{
    ks.lemma_filter_len(spec_has_state(m, s));
}

proof fn lemma_count_keys_is_count_state(ks: Seq<u64>, m: Map<u64, PageState>, s: PageState)
    requires
        ks.no_duplicates(),
    ensures
        spec_count_keys(ks, m, s) == ks.to_set().filter(spec_has_state(m, s)).len(),
    decreases ks.len(),
{
    let p = spec_has_state(m, s);
    if ks.len() == 0 {
        assert(ks.to_set().filter(p) =~= Set::empty());
    } else {
        let init = ks.drop_last();
        let x = ks.last();
        assert(init.push(x) =~= ks);
        assert(init.no_duplicates());
        lemma_count_keys_is_count_state(init, m, s);
        lemma_count_keys_push(init, x, m, s);
        init.lemma_push_to_set_commute(x);
        assert(!init.contains(x)) by {
            if init.contains(x) {
                let j = choose|j: int| 0 <= j < init.len() && init[j] == x;
                assert(ks[j] == ks[ks.len() - 1]);
            }
        }
        if p(x) {
            assert(ks.to_set().filter(p) =~= init.to_set().filter(p).insert(x));
        } else {
            assert(ks.to_set().filter(p) =~= init.to_set().filter(p));
        }
    }
}

proof fn lemma_count_keys_full(ks: Seq<u64>, n: int, m: Map<u64, PageState>, s: PageState)
    requires
        ks.no_duplicates(),
        ks.to_set() == m.dom(),
    ensures
        n == ks.len() ==> spec_count_keys(ks.take(n), m, s) == spec_count_state(m, s),
{
    if n == ks.len() {
        assert(ks.take(n) =~= ks);
        lemma_count_keys_is_count_state(ks, m, s);
        assert(ks.to_set().filter(spec_has_state(m, s)) =~= m.dom().filter(spec_has_state(m, s)));
    }
}

/// Counts of pages per state.
#[derive(Debug, Clone, Copy)]
pub struct DemandPagingStats {
    /// Pages reserved but not backed.
    pub not_allocated: usize,
    /// Pages backed by memory.
    pub in_memory: usize,
    /// Pages swapped out.
    pub swapped_out: usize,
}

impl Default for DemandPagingStats {
    fn default() -> (r: Self)
        ensures
            r.not_allocated == 0 && r.in_memory == 0 && r.swapped_out == 0,
    {
        DemandPagingStats { not_allocated: 0, in_memory: 0, swapped_out: 0 }
    }
}

/// Per-page demand paging state.
pub struct DemandPagingManager {
    page_states: BTreeMap<u64, PageState>,
}

impl View for DemandPagingManager {
    type V = Map<u64, PageState>;

    closed spec fn view(&self) -> Map<u64, PageState> {
        self.page_states@
    }
}

impl DemandPagingManager {
    /// Creates a manager that tracks no page.
    pub fn new() -> (r: Self)
        ensures
            r@ == Map::<u64, PageState>::empty(),
    {
        DemandPagingManager { page_states: BTreeMap::new() }
    }

    /// Reserves `num_pages` consecutive pages from `start`, each not backed
    /// by memory yet.
    pub fn reserve_pages(&mut self, start: VirtAddr, num_pages: usize)
        requires
            num_pages > 0 ==> start@ + (num_pages - 1) * 4096 <= u64::MAX,
        ensures
            final(self)@ == spec_reserve(old(self)@, start@, num_pages as int),
    {
        let mut i: usize = 0;
        while i < num_pages
            invariant
                0 <= i <= num_pages,
                num_pages > 0 ==> start@ + (num_pages - 1) * 4096 <= u64::MAX,
                self@ == spec_reserve(old(self)@, start@, i as int),
            decreases num_pages - i,
        {
            assert(i * 4096 <= (num_pages - 1) * 4096) by (nonlinear_arith)
                requires
                    i < num_pages,
            ;
            let virt = start.as_u64() + (i as u64 * PAGE_SIZE as u64);
            let ghost before = self@;
            self.page_states.insert(virt, PageState::NotAllocated);
            proof {
                assert(virt == spec_page_at(start@, i as int));
                assert(self@ =~= spec_reserve(old(self)@, start@, i as int + 1)) by {
                    assert forall|v: u64| spec_in_reserved(start@, i as int + 1, v) implies (
                    spec_in_reserved(start@, i as int, v) || v == virt) by {
                        let k = choose|k: int| 0 <= k < i as int + 1 && v == #[trigger] spec_page_at(start@, k);
                        if k < i {
                            assert(spec_in_reserved(start@, i as int, v));
                        }
                    }
                    assert forall|v: u64| spec_in_reserved(start@, i as int, v) implies spec_in_reserved(
                    start@, i as int + 1, v) by {
                        let k = choose|k: int| 0 <= k < i as int && v == #[trigger] spec_page_at(start@, k);
                        assert(spec_page_at(start@, k) == v);
                    }
                    assert(spec_in_reserved(start@, i as int + 1, virt)) by {
                        assert(spec_page_at(start@, i as int) == virt);
                    }
                }
            }
            i = i + 1;
        }
    }

    /// Marks a page as backed by memory.
    pub fn allocate_page(&mut self, virt_addr: VirtAddr)
        ensures
            final(self)@ == old(self)@.insert(virt_addr@, PageState::InMemory),
    {
        self.page_states.insert(virt_addr.as_u64(), PageState::InMemory);
    }

    /// The state of a page; untracked pages are not allocated.
    pub fn get_page_state(&self, virt_addr: VirtAddr) -> (r: PageState)
        ensures
            r == spec_state_of(self@, virt_addr@),
    {
        match self.page_states.get(&virt_addr.as_u64()) {
            Some(s) => *s,
            None => PageState::NotAllocated,
        }
    }

    /// Marks a page as swapped out.
    pub fn mark_swapped_out(&mut self, virt_addr: VirtAddr)
        ensures
            final(self)@ == old(self)@.insert(virt_addr@, PageState::SwappedOut),
    {
        self.page_states.insert(virt_addr.as_u64(), PageState::SwappedOut);
    }

    /// Whether a fault on the page must bring in a page: true unless the
    /// page is already in memory.
    pub fn should_allocate_on_fault(&self, virt_addr: VirtAddr) -> (r: bool)
        ensures
            r == (spec_state_of(self@, virt_addr@) != PageState::InMemory),
    {
        match self.get_page_state(virt_addr) {
            PageState::NotAllocated => true,
            PageState::SwappedOut => true,
            PageState::InMemory => false,
        }
    }

    /// Stops tracking a page.
    pub fn remove_page(&mut self, virt_addr: VirtAddr)
        ensures
            final(self)@ == old(self)@.remove(virt_addr@),
    {
        self.page_states.remove(&virt_addr.as_u64());
    }

    /// The number of tracked pages in each state.
    pub fn get_stats(&self) -> (r: DemandPagingStats)
        ensures
            r.not_allocated == spec_count_state(self@, PageState::NotAllocated),
            r.in_memory == spec_count_state(self@, PageState::InMemory),
            r.swapped_out == spec_count_state(self@, PageState::SwappedOut),
    {
        let mut stats = DemandPagingStats { not_allocated: 0, in_memory: 0, swapped_out: 0 };
        let ghost m = self@;
        let total = self.page_states.len();
        if total == 0 {
            assert(m.dom().filter(spec_has_state(m, PageState::NotAllocated)) =~= Set::empty());
            assert(m.dom().filter(spec_has_state(m, PageState::InMemory)) =~= Set::empty());
            assert(m.dom().filter(spec_has_state(m, PageState::SwappedOut)) =~= Set::empty());
            return stats;
        }
        for k in it: self.page_states.keys()
            invariant
                m == self@,
                total == m.len(),
                it.seq().unref().to_set() == m.dom(),
                it.seq().unref().no_duplicates(),
                it.seq().len() == m.dom().len(),
                stats.not_allocated == spec_count_keys(it.seq().unref().take(it.index()), m, PageState::NotAllocated),
                stats.in_memory == spec_count_keys(it.seq().unref().take(it.index()), m, PageState::InMemory),
                stats.swapped_out == spec_count_keys(it.seq().unref().take(it.index()), m, PageState::SwappedOut),
                it.index() == it.seq().len() ==> {
                    &&& stats.not_allocated == spec_count_state(m, PageState::NotAllocated)
                    &&& stats.in_memory == spec_count_state(m, PageState::InMemory)
                    &&& stats.swapped_out == spec_count_state(m, PageState::SwappedOut)
                },
        {
            let ghost ks = it.seq().unref();
            let ghost i = it.index();
            proof {
                assert(ks.take(i + 1) =~= ks.take(i).push(*k));
                lemma_count_keys_push(ks.take(i), *k, m, PageState::NotAllocated);
                lemma_count_keys_push(ks.take(i), *k, m, PageState::InMemory);
                lemma_count_keys_push(ks.take(i), *k, m, PageState::SwappedOut);
                lemma_count_keys_le(ks.take(i), m, PageState::NotAllocated);
                lemma_count_keys_le(ks.take(i), m, PageState::InMemory);
                lemma_count_keys_le(ks.take(i), m, PageState::SwappedOut);
                assert(ks.to_set().contains(ks[i]));
            }
            match self.page_states.get(k) {
                Some(state) => match state {
                    PageState::NotAllocated => stats.not_allocated = stats.not_allocated + 1,
                    PageState::InMemory => stats.in_memory = stats.in_memory + 1,
                    PageState::SwappedOut => stats.swapped_out = stats.swapped_out + 1,
                },
                None => {},
            }
            proof {
                lemma_count_keys_full(ks, i + 1, m, PageState::NotAllocated);
                lemma_count_keys_full(ks, i + 1, m, PageState::InMemory);
                lemma_count_keys_full(ks, i + 1, m, PageState::SwappedOut);
            }
        }
        stats
    }
}

} // verus!
