//! Copy-on-write page tracking: a reference count per shared physical page.
//!
//! A page that is marked copy-on-write is shared read-only between address
//! spaces until one of them writes to it. The manager counts the sharers of
//! each page; a page whose count drops to zero is no longer tracked.

use std::collections::BTreeMap;
use vstd::prelude::*;
use super::addr::PhysAddr;

verus! {

broadcast use vstd::laws_cmp::group_laws_cmp;

/// Number of address spaces sharing one physical page.
#[derive(Debug)]
struct RefCount {
    count: usize,
}

impl RefCount {
    fn new() -> (r: Self)
        ensures
            r.count == 1,
    {
        RefCount { count: 1 }
    }

    fn increment(&mut self)
        requires
            old(self).count < usize::MAX,
        ensures
            final(self).count == old(self).count + 1,
    {
        self.count = self.count + 1;
    }

    fn decrement(&mut self) -> (r: usize)
        ensures
            final(self).count == (if old(self).count == 0 { 0 } else { old(self).count - 1 }),
            r == final(self).count,
    {
        self.count = self.count.saturating_sub(1);
        self.count
    }

    fn get(&self) -> (r: usize)
        ensures
            r == self.count,
    {
        self.count
    }
}

/// Reference counts of copy-on-write pages, keyed by physical address.
pub struct CowPageManager {
    ref_counts: BTreeMap<u64, RefCount>,
}

impl View for CowPageManager {
    type V = Map<u64, nat>;

    /// Physical address to reference count of every tracked page.
    closed spec fn view(&self) -> Map<u64, nat> {
        self.ref_counts@.map_values(|rc: RefCount| rc.count as nat)
    }
}

/// The count a manager reports for `addr`: 0 for an untracked page.
pub open spec fn spec_ref_count(m: Map<u64, nat>, addr: u64) -> nat {
    if m.contains_key(addr) {
        m[addr]
    } else {
        0
    }
}

impl CowPageManager {
    /// Every tracked page has at least one reference.
    pub closed spec fn wf(&self) -> bool {
        forall|a: u64| #[trigger] self.ref_counts@.contains_key(a) ==> self.ref_counts@[a].count >= 1
    }

    /// Every page the manager tracks has a count of at least one, so a
    /// count of 0 means the page is not tracked.
    pub proof fn lemma_tracked_counts_positive(&self)
        requires
            self.wf(),
        ensures
            forall|a: u64| #[trigger] self@.contains_key(a) ==> self@[a] >= 1,
            forall|a: u64| spec_ref_count(self@, a) == 0 <==> !#[trigger] self@.contains_key(a),
    {
    }

    /// Creates a manager that tracks no page.
    pub fn new() -> (r: Self)
        ensures
            r.wf(),
            r@ == Map::<u64, nat>::empty(),
    {
        let r = CowPageManager { ref_counts: BTreeMap::new() };
        assert(r@ =~= Map::<u64, nat>::empty());
        r
    }

    /// Adds one sharer to a page; an untracked page starts from one
    /// reference, so it ends with two. Returns the new count.
    pub fn mark_cow(&mut self, phys_addr: PhysAddr) -> (r: usize)
        requires
            old(self).wf(),
            spec_ref_count(old(self)@, phys_addr@) < usize::MAX,
        ensures
            final(self).wf(),
            r == (if old(self)@.contains_key(phys_addr@) { old(self)@[phys_addr@] + 1 } else { 2 }),
            final(self)@ == old(self)@.insert(phys_addr@, r as nat),
    {
        let addr = phys_addr.as_u64();
        let mut rc = match self.ref_counts.remove(&addr) {
            Some(rc) => rc,
            None => RefCount::new(),
        };
        rc.increment();
        let r = rc.get();
        self.ref_counts.insert(addr, rc);
        assert(self@ =~= old(self)@.insert(phys_addr@, r as nat));
        r
    }

    /// The reference count of a page, 0 when it is not tracked.
    pub fn get_ref_count(&self, phys_addr: PhysAddr) -> (r: usize)
        ensures
            r == spec_ref_count(self@, phys_addr@),
    {
        let addr = phys_addr.as_u64();
        match self.ref_counts.get(&addr) {
            Some(rc) => rc.get(),
            None => 0,
        }
    }

    /// Drops one sharer of a page and returns the new count; a page whose
    /// count reaches zero stops being tracked. An untracked page gives 0.
    pub fn release_cow(&mut self, phys_addr: PhysAddr) -> (r: usize)
        requires
            old(self).wf(),
        ensures
            final(self).wf(),
            r as nat == (if spec_ref_count(old(self)@, phys_addr@) == 0 { 0 } else {
                (spec_ref_count(old(self)@, phys_addr@) - 1) as nat
            }),
            final(self)@ == (if r == 0 { old(self)@.remove(phys_addr@) } else {
                old(self)@.insert(phys_addr@, r as nat)
            }),
            spec_ref_count(old(self)@, phys_addr@) == 0 ==> final(self)@ == old(self)@,
    {
        let addr = phys_addr.as_u64();
        match self.ref_counts.remove(&addr) {
            Some(mut rc) => {
                let new_count = rc.decrement();
                if new_count != 0 {
                    self.ref_counts.insert(addr, rc);
                    assert(self@ =~= old(self)@.insert(phys_addr@, new_count as nat));
                } else {
                    assert(self@ =~= old(self)@.remove(phys_addr@));
                }
                new_count
            },
            None => {
                assert(self@ =~= old(self)@.remove(phys_addr@));
                assert(self@ =~= old(self)@);
                0
            },
        }
    }

    /// Whether more than one address space shares the page.
    pub fn is_shared(&self, phys_addr: PhysAddr) -> (r: bool)
        ensures
            r == (spec_ref_count(self@, phys_addr@) > 1),
    {
        self.get_ref_count(phys_addr) > 1
    }

    /// Starts tracking a page with one reference (resetting any count it had).
    pub fn add_page(&mut self, phys_addr: PhysAddr)
        requires
            old(self).wf(),
        ensures
            final(self).wf(),
            final(self)@ == old(self)@.insert(phys_addr@, 1),
    {
        let addr = phys_addr.as_u64();
        self.ref_counts.insert(addr, RefCount::new());
        assert(self@ =~= old(self)@.insert(phys_addr@, 1));
    }
}

/// Marking a page and then releasing it gives back the count it had, and a
/// page that was added once and released once is no longer tracked.
pub proof fn lemma_mark_release_roundtrip(m: Map<u64, nat>, addr: u64)
    requires
        spec_ref_count(m, addr) >= 1,
    ensures
        ({
            let marked = m.insert(addr, spec_ref_count(m, addr) + 1);
            let n = (spec_ref_count(marked, addr) - 1) as nat;
            n == spec_ref_count(m, addr) && marked.insert(addr, n) == m
        }),
        spec_ref_count(Map::<u64, nat>::empty().insert(addr, 1), addr) - 1 == 0,
{
    let marked = m.insert(addr, spec_ref_count(m, addr) + 1);
    let n = (spec_ref_count(marked, addr) - 1) as nat;
    assert(marked.insert(addr, n) =~= m);
}

} // verus!
