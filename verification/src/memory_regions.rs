//! Classification of memory regions (kernel code and data, user space,
//! MMIO, available and reserved memory) and their access permissions.

use vstd::prelude::*;

pub mod address_space;

verus! {

/// Kind of a memory region.
#[derive(Debug, Clone, Copy, PartialEq, Eq, Structural)]
pub enum MemoryRegionType {
    /// Kernel code (read-only, executable).
    KernelCode,
    /// Kernel data (read-write, non-executable).
    KernelData,
    /// Kernel stack (read-write, non-executable).
    KernelStack,
    /// Kernel heap (read-write, non-executable).
    KernelHeap,
    /// User space.
    UserSpace,
    /// Memory-mapped I/O.
    MMIO,
    /// Available physical memory.
    Available,
    /// Reserved memory (bootloader, firmware).
    Reserved,
}

impl MemoryRegionType {
    /// The display name of the region type.
    pub fn name(&self) -> (r: &'static str)
        ensures
            r@ == (match *self {
                MemoryRegionType::KernelCode => "Kernel Code"@,
                MemoryRegionType::KernelData => "Kernel Data"@,
                MemoryRegionType::KernelStack => "Kernel Stack"@,
                MemoryRegionType::KernelHeap => "Kernel Heap"@,
                MemoryRegionType::UserSpace => "User Space"@,
                MemoryRegionType::MMIO => "MMIO"@,
                MemoryRegionType::Available => "Available"@,
                MemoryRegionType::Reserved => "Reserved"@,
            }),
    {
        match self {
            MemoryRegionType::KernelCode => "Kernel Code",
            MemoryRegionType::KernelData => "Kernel Data",
            MemoryRegionType::KernelStack => "Kernel Stack",
            MemoryRegionType::KernelHeap => "Kernel Heap",
            MemoryRegionType::UserSpace => "User Space",
            MemoryRegionType::MMIO => "MMIO",
            MemoryRegionType::Available => "Available",
            MemoryRegionType::Reserved => "Reserved",
        }
    }
}

/// A physical memory region.
#[derive(Debug, Clone, Copy, PartialEq, Eq, Structural)]
pub struct MemoryRegion {
    pub start: u64,
    pub size: u64,
    pub region_type: MemoryRegionType,
}

impl MemoryRegion {
    /// The region ends within the address space.
    pub open spec fn wf(&self) -> bool {
        self.start + self.size <= u64::MAX
    }

    /// Creates a region.
    pub fn new(start: u64, size: u64, region_type: MemoryRegionType) -> (r: Self)
        ensures
            r == (MemoryRegion { start, size, region_type }),
    {
        MemoryRegion { start, size, region_type }
    }

    /// The first address past the region.
    pub fn end(&self) -> (r: u64)
        requires
            self.wf(),
        ensures
            r == self.start + self.size,
    {
        self.start + self.size
    }

    /// Whether `addr` lies in `[start, end)`.
    pub fn contains(&self, addr: u64) -> (r: bool)
        requires
            self.wf(),
        ensures
            r == (self.start <= addr < self.start + self.size),
    {
        addr >= self.start && addr < self.end()
    }

    /// Whether the two regions share an address.
    pub fn overlaps(&self, other: &MemoryRegion) -> (r: bool)
        requires
            self.wf(),
            other.wf(),
        ensures
            r == (self.start < other.start + other.size && other.start < self.start + self.size),
    {
        self.start < other.end() && other.start < self.end()
    }
}

/// Capacity of a `MemoryRegionManager`.
pub const MAX_REGIONS: usize = 32;

/// Up to 32 memory regions, in the order they were added.
pub struct MemoryRegionManager {
    regions: [Option<MemoryRegion>; 32],
    count: usize,
}

/// Sum of the sizes of the regions of type `t`.
pub open spec fn spec_total_size(rs: Seq<MemoryRegion>, t: MemoryRegionType) -> int
    decreases rs.len(),
{
    if rs.len() == 0 {
        0
    } else {
        spec_total_size(rs.drop_last(), t) + if rs.last().region_type == t { rs.last().size as int } else { 0 }
    }
}

/// Number of regions of type `t`.
pub open spec fn spec_count_type(rs: Seq<MemoryRegion>, t: MemoryRegionType) -> int
    decreases rs.len(),
{
    if rs.len() == 0 {
        0
    } else {
        spec_count_type(rs.drop_last(), t) + if rs.last().region_type == t { 1int } else { 0 }
    }
}

impl View for MemoryRegionManager {
    type V = Seq<MemoryRegion>;

    closed spec fn view(&self) -> Seq<MemoryRegion> {
        Seq::new(self.count as nat, |i: int| self.regions@[i]->0)
    }
}

impl MemoryRegionManager {
    /// The first `count` slots hold regions, the rest are empty.
    pub closed spec fn wf(&self) -> bool {
        &&& self.count <= 32
        &&& forall|i: int| 0 <= i < 32 ==> ((#[trigger] self.regions@[i]) is Some <==> i < self.count)
    }

    /// A manager holds at most 32 regions.
    pub proof fn lemma_len_bound(&self)
        requires
            self.wf(),
        ensures
            self@.len() <= 32,
    {
    }

    /// A manager without regions.
    pub fn new() -> (r: Self)
        ensures
            r.wf(),
            r@ == Seq::<MemoryRegion>::empty(),
    {
        let r = MemoryRegionManager { regions: [None; 32], count: 0 };
        assert(r@ =~= Seq::<MemoryRegion>::empty());
        r
    }

    /// Appends a region; returns false, changing nothing, when 32 regions
    /// are already held.
    pub fn add_region(&mut self, region: MemoryRegion) -> (r: bool)
        requires
            old(self).wf(),
        ensures
            final(self).wf(),
            r == (old(self)@.len() < 32),
            r ==> final(self)@ == old(self)@.push(region),
            !r ==> final(self)@ == old(self)@,
    {
        if self.count >= 32 {
            return false;
        }
        let ghost before = self@;
        self.regions[self.count] = Some(region);
        self.count = self.count + 1;
        assert(self@ =~= before.push(region));
        true
    }

    /// The first region, in order of addition, that holds `addr`.
    pub fn find_region(&self, addr: u64) -> (r: Option<&MemoryRegion>)
        requires
            self.wf(),
            forall|i: int| 0 <= i < self@.len() ==> (#[trigger] self@[i]).wf(),
        ensures
            match r {
                Some(reg) => exists|i: int|
                    0 <= i < self@.len() && self@[i] == *reg && reg.start <= addr < reg.start + reg.size && forall|j: int|
                        0 <= j < i ==> !((#[trigger] self@[j]).start <= addr < self@[j].start + self@[j].size),
                None => forall|i: int| 0 <= i < self@.len() ==> !((#[trigger] self@[i]).start <= addr < self@[i].start
                    + self@[i].size),
            },
    {
        let mut i: usize = 0;
        while i < self.count
            invariant
                self.wf(),
                forall|k: int| 0 <= k < self@.len() ==> (#[trigger] self@[k]).wf(),
                0 <= i <= self.count,
                forall|j: int| 0 <= j < i ==> !((#[trigger] self@[j]).start <= addr < self@[j].start + self@[j].size),
            decreases self.count - i,
        {
            match &self.regions[i] {
                Some(region) => {
                    assert(self@[i as int] == *region);
                    if region.contains(addr) {
                        assert(self@[i as int] == *region);
                        return Some(region);
                    }
                },
                None => {
                    assert(false);
                },
            }
            i = i + 1;
        }
        None
    }

    /// The regions, in order of addition.
    pub fn regions(&self) -> (r: Vec<MemoryRegion>)
        requires
            self.wf(),
        ensures
            r@ == self@,
    {
        let mut r: Vec<MemoryRegion> = Vec::new();
        let mut i: usize = 0;
        while i < self.count
            invariant
                self.wf(),
                0 <= i <= self.count,
                r@ == self@.take(i as int),
            decreases self.count - i,
        {
            match self.regions[i] {
                Some(region) => {
                    r.push(region);
                },
                None => {
                    assert(false);
                },
            }
            assert(r@ =~= self@.take(i as int + 1));
            i = i + 1;
        }
        assert(self@.take(self.count as int) =~= self@);
        r
    }

    /// The total size of the regions of type `region_type`.
    pub fn total_size_by_type(&self, region_type: MemoryRegionType) -> (r: u64)
        requires
            self.wf(),
            spec_total_size(self@, region_type) <= u64::MAX,
        ensures
            r == spec_total_size(self@, region_type),
    {
        let rs = self.regions();
        let mut total: u64 = 0;
        let mut i: usize = 0;
        while i < rs.len()
            invariant
                rs@ == self@,
                0 <= i <= rs@.len(),
                total == spec_total_size(rs@.take(i as int), region_type),
                spec_total_size(self@, region_type) <= u64::MAX,
            decreases rs@.len() - i,
        {
            proof {
                assert(rs@.take(i as int + 1).drop_last() =~= rs@.take(i as int));
                lemma_total_size_prefix(rs@, region_type, i as int + 1);
            }
            if rs[i].region_type == region_type {
                total = total + rs[i].size;
            }
            i = i + 1;
        }
        assert(rs@.take(rs@.len() as int) =~= rs@);
        total
    }

    /// The number of regions of type `region_type`.
    pub fn count_by_type(&self, region_type: MemoryRegionType) -> (r: usize)
        requires
            self.wf(),
        ensures
            r == spec_count_type(self@, region_type),
    {
        let rs = self.regions();
        let mut n: usize = 0;
        let mut i: usize = 0;
        while i < rs.len()
            invariant
                rs@ == self@,
                rs@.len() <= 32,
                0 <= i <= rs@.len(),
                n == spec_count_type(rs@.take(i as int), region_type),
                n <= i,
            decreases rs@.len() - i,
        {
            assert(rs@.take(i as int + 1).drop_last() =~= rs@.take(i as int));
            if rs[i].region_type == region_type {
                n = n + 1;
            }
            i = i + 1;
        }
        assert(rs@.take(rs@.len() as int) =~= rs@);
        n
    }
}

proof fn lemma_total_size_prefix(rs: Seq<MemoryRegion>, t: MemoryRegionType, k: int)
    requires
        0 <= k <= rs.len(),
    ensures
        spec_total_size(rs.take(k), t) <= spec_total_size(rs, t),
    decreases rs.len() - k,
{
    if k < rs.len() {
        lemma_total_size_prefix(rs, t, k + 1);
        assert(rs.take(k + 1).drop_last() =~= rs.take(k));
    } else {
        assert(rs.take(k) =~= rs);
    }
}

/// Access permissions of a memory region.
#[derive(Debug, Clone, Copy, PartialEq, Eq, Structural)]
pub struct MemoryPermissions {
    pub read: bool,
    pub write: bool,
    pub execute: bool,
}

impl MemoryPermissions {
    /// Read-only, non-executable.
    pub fn ro() -> (r: Self)
        ensures
            r == (MemoryPermissions { read: true, write: false, execute: false }),
    {
        MemoryPermissions { read: true, write: false, execute: false }
    }

    /// Read-write, non-executable.
    pub fn rw() -> (r: Self)
        ensures
            r == (MemoryPermissions { read: true, write: true, execute: false }),
    {
        MemoryPermissions { read: true, write: true, execute: false }
    }

    /// Read-execute, non-writable.
    pub fn rx() -> (r: Self)
        ensures
            r == (MemoryPermissions { read: true, write: false, execute: true }),
    {
        MemoryPermissions { read: true, write: false, execute: true }
    }

    /// Read-write-execute.
    pub fn rwx() -> (r: Self)
        ensures
            r == (MemoryPermissions { read: true, write: true, execute: true }),
    {
        MemoryPermissions { read: true, write: true, execute: true }
    }

    /// The recommended permissions for a region type: code is read-execute,
    /// data, stacks, heap, MMIO and user space are read-write, available and
    /// reserved memory read-only.
    pub fn for_region_type(region_type: MemoryRegionType) -> (r: Self)
        ensures
            r == (match region_type {
                MemoryRegionType::KernelCode => MemoryPermissions { read: true, write: false, execute: true },
                MemoryRegionType::Available | MemoryRegionType::Reserved => MemoryPermissions {
                    read: true,
                    write: false,
                    execute: false,
                },
                _ => MemoryPermissions { read: true, write: true, execute: false },
            }),
    {
        match region_type {
            MemoryRegionType::KernelCode => Self::rx(),
            MemoryRegionType::KernelData | MemoryRegionType::KernelStack | MemoryRegionType::KernelHeap => Self::rw(),
            MemoryRegionType::MMIO => Self::rw(),
            MemoryRegionType::UserSpace => Self::rw(),
            MemoryRegionType::Available | MemoryRegionType::Reserved => Self::ro(),
        }
    }
}

} // verus!
