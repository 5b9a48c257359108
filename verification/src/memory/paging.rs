//! x86_64 page table structures: entry flags, entries, tables and the
//! index extraction of a virtual address.

use vstd::prelude::*;

verus! {

/// Page table entry flags.
#[derive(Debug, Clone, Copy, PartialEq, Eq, Structural)]
pub struct PageTableFlags(u64);

impl View for PageTableFlags {
    type V = u64;

    closed spec fn view(&self) -> u64 {
        self.0
    }
}

/// Physical address mask of a page table entry (bits 12..51).
pub const ADDR_MASK: u64 = 0x000F_FFFF_FFFF_F000;

impl PageTableFlags {
    /// Entry is present in memory.
    pub fn present() -> (r: Self)
        ensures
            r@ == 1u64 << 0u64,
    {
        PageTableFlags(1u64 << 0u64)
    }

    /// Page is writable (read-only when clear).
    pub fn writable() -> (r: Self)
        ensures
            r@ == 1u64 << 1u64,
    {
        PageTableFlags(1u64 << 1u64)
    }

    /// Page is accessible from user mode.
    pub fn user() -> (r: Self)
        ensures
            r@ == 1u64 << 2u64,
    {
        PageTableFlags(1u64 << 2u64)
    }

    /// Write-through caching.
    pub fn write_through() -> (r: Self)
        ensures
            r@ == 1u64 << 3u64,
    {
        PageTableFlags(1u64 << 3u64)
    }

    /// Caching disabled for this page.
    pub fn no_cache() -> (r: Self)
        ensures
            r@ == 1u64 << 4u64,
    {
        PageTableFlags(1u64 << 4u64)
    }

    /// Page has been accessed.
    pub fn accessed() -> (r: Self)
        ensures
            r@ == 1u64 << 5u64,
    {
        PageTableFlags(1u64 << 5u64)
    }

    /// Page has been written to.
    pub fn dirty() -> (r: Self)
        ensures
            r@ == 1u64 << 6u64,
    {
        PageTableFlags(1u64 << 6u64)
    }

    /// Huge page (2 MiB or 1 GiB depending on level).
    pub fn huge_page() -> (r: Self)
        ensures
            r@ == 1u64 << 7u64,
    {
        PageTableFlags(1u64 << 7u64)
    }

    /// Entry is not flushed from the TLB on CR3 reload.
    pub fn global() -> (r: Self)
        ensures
            r@ == 1u64 << 8u64,
    {
        PageTableFlags(1u64 << 8u64)
    }

    /// Copy-on-write marker (available bit 9).
    pub fn copy_on_write() -> (r: Self)
        ensures
            r@ == 1u64 << 9u64,
    {
        PageTableFlags(1u64 << 9u64)
    }

    /// Execution disabled (NX bit).
    pub fn no_execute() -> (r: Self)
        ensures
            r@ == 1u64 << 63u64,
    {
        PageTableFlags(1u64 << 63u64)
    }

    /// The empty flag set.
    pub fn empty() -> (r: Self)
        ensures
            r@ == 0,
    {
        PageTableFlags(0)
    }

    /// Whether the flags share a set bit with `flag`.
    pub fn contains(&self, flag: Self) -> (r: bool)
        ensures
            r == (self@ & flag@ != 0),
    {
        self.0 & flag.0 != 0
    }

    /// The union of the flags with `flag`.
    pub fn with(self, flag: Self) -> (r: Self)
        ensures
            r@ == self@ | flag@,
    {
        PageTableFlags(self.0 | flag.0)
    }

    /// The flags with the bits of `flag` cleared.
    pub fn without(self, flag: Self) -> (r: Self)
        ensures
            r@ == self@ & !flag@,
    {
        PageTableFlags(self.0 & !flag.0)
    }

    /// The raw flag bits.
    pub fn bits(&self) -> (r: u64)
        ensures
            r == self@,
    {
        self.0
    }
}

/// A page table entry (8 bytes).
#[derive(Debug, Clone, Copy)]
pub struct PageTableEntry(u64);

impl View for PageTableEntry {
    type V = u64;

    closed spec fn view(&self) -> u64 {
        self.0
    }
}

impl PageTableEntry {
    /// Creates a null entry.
    pub fn new() -> (r: Self)
        ensures
            r@ == 0,
    {
        PageTableEntry(0)
    }

    /// The entry with the given raw bits.
    pub fn from_bits(bits: u64) -> (r: Self)
        ensures
            r@ == bits,
    {
        PageTableEntry(bits)
    }

    /// The entry's raw bits.
    pub fn bits(&self) -> (r: u64)
        ensures
            r == self@,
    {
        self.0
    }

    /// Whether the entry is present.
    pub fn is_present(&self) -> (r: bool)
        ensures
            r == (self@ & 1 != 0),
    {
        self.0 & 1 != 0
    }

    /// The physical address the entry points to.
    pub fn addr(&self) -> (r: u64)
        ensures
            r == self@ & ADDR_MASK,
    {
        self.0 & ADDR_MASK
    }

    /// The flag bits of the entry (everything outside the address bits).
    pub fn flags(&self) -> (r: PageTableFlags)
        ensures
            r@ == self@ & !ADDR_MASK,
    {
        PageTableFlags(self.0 & !ADDR_MASK)
    }

    /// Maps the entry to a page-aligned physical address with the given flags.
    pub fn set(&mut self, addr: u64, flags: PageTableFlags)
        requires
            addr % 4096 == 0,
        ensures
            final(self)@ == (addr & ADDR_MASK) | flags@,
    {
        self.0 = (addr & ADDR_MASK) | flags.bits();
    }

    /// Clears the entry.
    pub fn clear(&mut self)
        ensures
            final(self)@ == 0,
    {
        self.0 = 0;
    }
}

/// A page table of 512 entries.
pub struct PageTable {
    entries: [PageTableEntry; 512],
}

impl View for PageTable {
    type V = Seq<u64>;

    closed spec fn view(&self) -> Seq<u64> {
        self.entries@.map_values(|e: PageTableEntry| e@)
    }
}

impl PageTable {
    /// A table holds 512 entries.
    pub proof fn lemma_len(&self)
        ensures
            self@.len() == 512,
    {
    }

    /// Creates an empty page table.
    pub fn new() -> (r: Self)
        ensures
            r@ == Seq::new(512, |i: int| 0u64),
    {
        let r = PageTable { entries: [PageTableEntry(0); 512] };
        assert(r@ =~= Seq::new(512, |i: int| 0u64));
        r
    }

    /// The entry at `index`.
    pub fn entry(&self, index: usize) -> (r: &PageTableEntry)
        requires
            index < 512,
        ensures
            r@ == self@[index as int],
    {
        &self.entries[index]
    }

    /// The entry at `index`, for modification.
    pub fn entry_mut(&mut self, index: usize) -> (r: &mut PageTableEntry)
        requires
            index < 512,
        ensures
            r@ == old(self)@[index as int],
            final(self)@ == old(self)@.update(index as int, final(r)@),
    {
        &mut self.entries[index]
    }

    /// Clears all entries.
    pub fn clear(&mut self)
        ensures
            final(self)@ == Seq::new(512, |i: int| 0u64),
    {
        let mut i: usize = 0;
        while i < 512
            invariant
                0 <= i <= 512,
                self.entries@.len() == 512,
                forall|j: int| 0 <= j < i ==> self.entries@[j]@ == 0,
            decreases 512 - i,
        {
            self.entries[i] = PageTableEntry(0);
            i = i + 1;
        }
        assert(self@ =~= Seq::new(512, |i: int| 0u64));
    }
}

/// Extracts the PML4 index (bits 39..47) from a virtual address.
pub fn pml4_index(virt_addr: u64) -> (r: usize)
    ensures
        r == (virt_addr / 0x80_0000_0000) % 512,
{
    assert((virt_addr >> 39u64) & 0x1FF == (virt_addr / 0x80_0000_0000) % 512) by (bit_vector);
    ((virt_addr >> 39u64) & 0x1FF) as usize
}

/// Extracts the PDPT index (bits 30..38) from a virtual address.
pub fn pdpt_index(virt_addr: u64) -> (r: usize)
    ensures
        r == (virt_addr / 0x4000_0000) % 512,
{
    assert((virt_addr >> 30u64) & 0x1FF == (virt_addr / 0x4000_0000) % 512) by (bit_vector);
    ((virt_addr >> 30u64) & 0x1FF) as usize
}

/// Extracts the PD index (bits 21..29) from a virtual address.
pub fn pd_index(virt_addr: u64) -> (r: usize)
    ensures
        r == (virt_addr / 0x20_0000) % 512,
{
    assert((virt_addr >> 21u64) & 0x1FF == (virt_addr / 0x20_0000) % 512) by (bit_vector);
    ((virt_addr >> 21u64) & 0x1FF) as usize
}

/// Extracts the PT index (bits 12..20) from a virtual address.
pub fn pt_index(virt_addr: u64) -> (r: usize)
    ensures
        r == (virt_addr / 0x1000) % 512,
{
    assert((virt_addr >> 12u64) & 0x1FF == (virt_addr / 0x1000) % 512) by (bit_vector);
    ((virt_addr >> 12u64) & 0x1FF) as usize
}

/// Extracts the offset within the 4 KiB page.
pub fn page_offset(virt_addr: u64) -> (r: u64)
    ensures
        r == virt_addr % 0x1000,
{
    assert(virt_addr & 0xFFF == virt_addr % 0x1000) by (bit_vector);
    virt_addr & 0xFFF
}

/// A 48-bit virtual address is the sum of its four table indices, each
/// scaled by the size it selects, and its page offset.
pub proof fn lemma_indices_reconstruct_address(v: u64)
    requires
        v < 0x1_0000_0000_0000u64,
    ensures
        v == ((v / 0x80_0000_0000) % 512) * 0x80_0000_0000 + ((v / 0x4000_0000) % 512)
            * 0x4000_0000 + ((v / 0x20_0000) % 512) * 0x20_0000 + ((v / 0x1000) % 512) * 0x1000
            + v % 0x1000,
{
    assert(v < 0x1_0000_0000_0000u64 ==> v == ((v / 0x80_0000_0000) % 512) * 0x80_0000_0000 + ((v
        / 0x4000_0000) % 512) * 0x4000_0000 + ((v / 0x20_0000) % 512) * 0x20_0000 + ((v / 0x1000)
        % 512) * 0x1000 + v % 0x1000) by (bit_vector);
}

} // verus!
