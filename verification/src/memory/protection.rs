//! Memory protection: guard pages, access rights of regions and the access
//! check that combines them.

use std::collections::BTreeSet;
use vstd::prelude::*;
use super::addr::{VirtAddr, PAGE_SIZE};
use super::paging::PageTableFlags;

verus! {

broadcast use vstd::laws_cmp::group_laws_cmp;

/// The page base of an address: the address with its low 12 bits cleared.
pub open spec fn spec_page_base(addr: u64) -> u64 {
    addr & !0xFFFu64
}

/// Pages that must never be accessed (stack guards and the like).
pub struct GuardPageManager {
    guard_pages: BTreeSet<u64>,
}

impl View for GuardPageManager {
    type V = Set<u64>;

    closed spec fn view(&self) -> Set<u64> {
        self.guard_pages@
    }
}

impl GuardPageManager {
    /// Creates a manager without guard pages.
    pub fn new() -> (r: Self)
        ensures
            r@ == Set::<u64>::empty(),
    {
        GuardPageManager { guard_pages: BTreeSet::new() }
    }

    /// Marks the page at `addr` as a guard page; `addr` must be page aligned.
    pub fn add_guard_page(&mut self, addr: VirtAddr) -> (r: Result<(), &'static str>)
        ensures
            r is Ok <==> addr@ % 4096 == 0,
            r is Ok ==> final(self)@ == old(self)@.insert(addr@),
            r is Err ==> final(self)@ == old(self)@,
    {
        if !addr.is_aligned(PAGE_SIZE as u64) {
            return Err("Address must be page-aligned");
        }
        self.guard_pages.insert(addr.as_u64());
        Ok(())
    }

    /// Stops treating `addr` as a guard page.
    pub fn remove_guard_page(&mut self, addr: VirtAddr)
        ensures
            final(self)@ == old(self)@.remove(addr@),
    {
        self.guard_pages.remove(&addr.as_u64());
    }

    /// Whether the page that holds `addr` is a guard page.
    pub fn is_guard_page(&self, addr: VirtAddr) -> (r: bool)
        ensures
            r == self@.contains(spec_page_base(addr@)),
    {
        let page_addr = addr.as_u64() & !(PAGE_SIZE as u64 - 1);
        self.guard_pages.contains(&page_addr)
    }

    /// The number of guard pages.
    pub fn count(&self) -> (r: usize)
        ensures
            r == self@.len(),
    {
        self.guard_pages.len()
    }
}

/// Access rights of a memory region.
#[derive(Debug, Clone, Copy, PartialEq, Eq, Structural)]
pub struct MemoryProtection {
    /// Region is readable.
    pub read: bool,
    /// Region is writable.
    pub write: bool,
    /// Region is executable (`exec` is a keyword in Verus).
    pub execute: bool,
}

impl MemoryProtection {
    /// No access.
    pub fn none() -> (r: Self)
        ensures
            r == (MemoryProtection { read: false, write: false, execute: false }),
    {
        MemoryProtection { read: false, write: false, execute: false }
    }

    /// Read only.
    pub fn read_only() -> (r: Self)
        ensures
            r == (MemoryProtection { read: true, write: false, execute: false }),
    {
        MemoryProtection { read: true, write: false, execute: false }
    }

    /// Read and write.
    pub fn read_write() -> (r: Self)
        ensures
            r == (MemoryProtection { read: true, write: true, execute: false }),
    {
        MemoryProtection { read: true, write: true, execute: false }
    }

    /// Read and execute.
    pub fn read_exec() -> (r: Self)
        ensures
            r == (MemoryProtection { read: true, write: false, execute: true }),
    {
        MemoryProtection { read: true, write: false, execute: true }
    }

    /// Read, write and execute.
    pub fn read_write_exec() -> (r: Self)
        ensures
            r == (MemoryProtection { read: true, write: true, execute: true }),
    {
        MemoryProtection { read: true, write: true, execute: true }
    }

    /// Page table flags for these rights: always present, writable when
    /// writes are allowed, no-execute when execution is not.
    pub fn to_page_flags(&self) -> (r: PageTableFlags)
        ensures
            r@ == (1u64 | (if self.write { 2u64 } else { 0u64 }) | (if self.execute { 0u64 } else {
                0x8000_0000_0000_0000u64
            })),
    {
        let mut flags = PageTableFlags::present();
        assert(1u64 << 0u64 == 1u64 && 1u64 << 1u64 == 2u64 && 1u64 << 63u64 == 0x8000_0000_0000_0000u64 && 1u64
            | 0u64 == 1u64) by (bit_vector);
        let ghost f0 = flags@;
        if self.write {
            flags = flags.with(PageTableFlags::writable());
        } else {
            proof {
                lemma_or_zero(f0);
            }
        }
        let ghost f1 = flags@;
        if !self.execute {
            flags = flags.with(PageTableFlags::no_execute());
        } else {
            proof {
                lemma_or_zero(f1);
            }
        }
        flags
    }

    /// Whether reads are allowed.
    pub fn allows_read(&self) -> (r: bool)
        ensures
            r == self.read,
    {
        self.read
    }

    /// Whether writes are allowed.
    pub fn allows_write(&self) -> (r: bool)
        ensures
            r == self.write,
    {
        self.write
    }

    /// Whether execution is allowed.
    pub fn allows_exec(&self) -> (r: bool)
        ensures
            r == self.execute,
    {
        self.execute
    }
}

/// Or-ing in no bits changes nothing.
proof fn lemma_or_zero(x: u64)
    ensures
        x | 0u64 == x,
{
    assert(x | 0u64 == x) by (bit_vector);
}

/// A range of virtual memory with its access rights.
#[derive(Debug, Clone)]
pub struct ProtectedRegion {
    /// Start address.
    pub start: VirtAddr,
    /// Size in bytes.
    pub size: usize,
    /// Access rights.
    pub protection: MemoryProtection,
    /// Description.
    pub name: &'static str,
}

impl ProtectedRegion {
    /// The end of the region does not pass the top of the address space.
    pub open spec fn wf(&self) -> bool {
        self.start@ + self.size <= u64::MAX
    }

    /// Whether `addr` lies in `[start, start + size)`.
    pub open spec fn spec_contains(&self, addr: u64) -> bool {
        self.start@ <= addr < self.start@ + self.size
    }

    /// Creates a region.
    pub fn new(start: VirtAddr, size: usize, protection: MemoryProtection, name: &'static str) -> (r: Self)
        ensures
            r.start == start,
            r.size == size,
            r.protection == protection,
            r.name == name,
    {
        ProtectedRegion { start, size, protection, name }
    }

    /// Whether `addr` lies in the region.
    pub fn contains(&self, addr: VirtAddr) -> (r: bool)
        requires
            self.wf(),
        ensures
            r == self.spec_contains(addr@),
    {
        let addr_val = addr.as_u64();
        let start_val = self.start.as_u64();
        let end_val = start_val + self.size as u64;
        addr_val >= start_val && addr_val < end_val
    }

    /// The first address past the region.
    pub fn end(&self) -> (r: VirtAddr)
        requires
            self.wf(),
        ensures
            r@ == self.start@ + self.size,
    {
        VirtAddr::new(self.start.as_u64() + self.size as u64)
    }
}

/// Index of the first region of `regions` that holds `addr`, if any.
pub open spec fn spec_first_region(regions: Seq<ProtectedRegion>, addr: u64) -> Option<int> {
    if exists|i: int| 0 <= i < regions.len() && #[trigger] regions[i].spec_contains(addr) {
        Some(choose|i: int|
            0 <= i < regions.len() && #[trigger] regions[i].spec_contains(addr) && forall|j: int|
                0 <= j < i ==> !regions[j].spec_contains(addr))
    } else {
        None
    }
}

/// Guard pages and protected regions of one address space.
pub struct MemoryProtectionManager {
    guard_pages: GuardPageManager,
    regions: Vec<ProtectedRegion>,
}

impl MemoryProtectionManager {
    /// Every region is well formed.
    pub closed spec fn wf(&self) -> bool {
        forall|i: int| 0 <= i < self.regions@.len() ==> #[trigger] self.regions@[i].wf()
    }

    /// The guard pages.
    pub closed spec fn guards(&self) -> Set<u64> {
        self.guard_pages@
    }

    /// The regions, in the order they were added.
    pub closed spec fn regions(&self) -> Seq<ProtectedRegion> {
        self.regions@
    }

    /// Creates a manager without guard pages or regions.
    pub fn new() -> (r: Self)
        ensures
            r.wf(),
            r.guards() == Set::<u64>::empty(),
            r.regions() == Seq::<ProtectedRegion>::empty(),
    {
        MemoryProtectionManager { guard_pages: GuardPageManager::new(), regions: Vec::new() }
    }

    /// Adds a guard page; `addr` must be page aligned.
    pub fn add_guard_page(&mut self, addr: VirtAddr) -> (r: Result<(), &'static str>)
        requires
            old(self).wf(),
        ensures
            final(self).wf(),
            final(self).regions() == old(self).regions(),
            r is Ok <==> addr@ % 4096 == 0,
            r is Ok ==> final(self).guards() == old(self).guards().insert(addr@),
            r is Err ==> final(self).guards() == old(self).guards(),
    {
        self.guard_pages.add_guard_page(addr)
    }

    /// Whether the page that holds `addr` is a guard page.
    pub fn is_guard_page(&self, addr: VirtAddr) -> (r: bool)
        ensures
            r == self.guards().contains(spec_page_base(addr@)),
    {
        self.guard_pages.is_guard_page(addr)
    }

    /// Appends a region.
    pub fn add_region(&mut self, region: ProtectedRegion)
        requires
            old(self).wf(),
            region.wf(),
        ensures
            final(self).wf(),
            final(self).guards() == old(self).guards(),
            final(self).regions() == old(self).regions().push(region),
    {
        self.regions.push(region);
    }

    /// The first region, in order of addition, that holds `addr`.
    pub fn find_region(&self, addr: VirtAddr) -> (r: Option<&ProtectedRegion>)
        requires
            self.wf(),
        ensures
            match spec_first_region(self.regions(), addr@) {
                Some(i) => r == Some(&self.regions()[i]),
                None => r is None,
            },
    {
        let mut i: usize = 0;
        while i < self.regions.len()
            invariant
                self.wf(),
                0 <= i <= self.regions@.len(),
                forall|j: int| 0 <= j < i ==> !(#[trigger] self.regions@[j]).spec_contains(addr@),
            decreases self.regions@.len() - i,
        {
            if self.regions[i].contains(addr) {
                let ghost ii = i as int;
                assert(self.regions@[ii].spec_contains(addr@));
                proof {
                    let k = choose|k: int|
                        0 <= k < self.regions@.len() && #[trigger] self.regions@[k].spec_contains(
                            addr@,
                        ) && forall|j: int| 0 <= j < k ==> !self.regions@[j].spec_contains(addr@);
                    if k < ii {
                    } else if k > ii {
                        assert(!self.regions@[ii].spec_contains(addr@));
                    }
                }
                return Some(&self.regions[i]);
            }
            i = i + 1;
        }
        None
    }

    /// Whether an access to `addr` is allowed: never on a guard page, never
    /// outside every region, and otherwise as the first region holding it
    /// allows (reads always needed, writes and execution when asked).
    pub fn check_access(&self, addr: VirtAddr, write: bool, exec: bool) -> (r: bool)
        requires
            self.wf(),
        ensures
            r == (!self.guards().contains(spec_page_base(addr@)) && match spec_first_region(
                self.regions(),
                addr@,
            ) {
                Some(i) => {
                    let p = self.regions()[i].protection;
                    (!write || p.write) && (!exec || p.execute) && p.read
                },
                None => false,
            }),
    {
        if self.is_guard_page(addr) {
            return false;
        }
        match self.find_region(addr) {
            Some(region) => {
                if write && !region.protection.allows_write() {
                    return false;
                }
                if exec && !region.protection.allows_exec() {
                    return false;
                }
                if !region.protection.allows_read() {
                    return false;
                }
                true
            },
            None => false,
        }
    }
}

} // verus!
