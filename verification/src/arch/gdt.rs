//! Global Descriptor Table entries, the 64-bit TSS and its descriptor,
//! and the segment selectors the kernel uses.

use vstd::prelude::*;

verus! {

/// Kernel code segment selector (entry 1).
pub const KERNEL_CODE_SELECTOR: u16 = 0x08;

/// Kernel data segment selector (entry 2).
pub const KERNEL_DATA_SELECTOR: u16 = 0x10;

/// TSS selector (entry 5).
pub const TSS_SELECTOR: u16 = 0x28;

/// Interrupt stack table slot of the double fault stack (1-based).
pub const DOUBLE_FAULT_IST_INDEX: u8 = 1;

/// Size in bytes of the double fault stack.
pub const DOUBLE_FAULT_STACK_SIZE: usize = 131072;

/// Size in bytes of the 64-bit TSS.
pub const TSS_SIZE: u16 = 104;

/// A segment descriptor: limit bits 0-15, base bits 0-15, base bits
/// 16-23, access byte, flags and limit bits 16-19, base bits 24-31.
pub type GdtEntryView = (u16, u16, u8, u8, u8, u8);

/// A segment descriptor.
#[derive(Clone, Copy)]
pub struct GdtEntry {
    limit_low: u16,
    base_low: u16,
    base_mid: u8,
    access: u8,
    granularity: u8,
    base_high: u8,
}

/// The descriptor for a base, limit, access byte and flags: the base and
/// limit split into their fields, the flags' high nibble above the
/// limit's bits 16-19.
pub open spec fn spec_gdt_entry(base: u32, limit: u32, access: u8, granularity: u8) -> GdtEntryView {
    (
        (limit % 0x10000) as u16,
        (base % 0x10000) as u16,
        ((base / 0x10000) % 0x100) as u8,
        access,
        ((granularity / 16) * 16 + (limit / 0x10000) % 16) as u8,
        ((base / 0x1000000) % 0x100) as u8,
    )
}

impl View for GdtEntry {
    type V = GdtEntryView;

    closed spec fn view(&self) -> GdtEntryView {
        (self.limit_low, self.base_low, self.base_mid, self.access, self.granularity, self.base_high)
    }
}

impl GdtEntry {
    /// The descriptor's parts: limit bits 0-15, base bits 0-15 and 16-23,
    /// access byte, flags with limit bits 16-19, base bits 24-31.
    pub fn fields(&self) -> (r: GdtEntryView)
        ensures
            r == self@,
    {
        (self.limit_low, self.base_low, self.base_mid, self.access, self.granularity, self.base_high)
    }

    /// The null descriptor.
    pub fn null() -> (r: Self)
        ensures
            r@ == (0u16, 0u16, 0u8, 0u8, 0u8, 0u8),
    {
        GdtEntry { limit_low: 0, base_low: 0, base_mid: 0, access: 0, granularity: 0, base_high: 0 }
    }

    /// The descriptor for a segment.
    pub fn new(base: u32, limit: u32, access: u8, granularity: u8) -> (r: Self)
        ensures
            r@ == spec_gdt_entry(base, limit, access, granularity),
    {
        let limit_low = (limit & 0xFFFF) as u16;
        let base_low = (base & 0xFFFF) as u16;
        let base_mid = ((base >> 16) & 0xFF) as u8;
        let gran = (granularity & 0xF0) | (((limit >> 16) & 0x0F) as u8);
        let base_high = ((base >> 24) & 0xFF) as u8;
        assert(limit_low == limit % 0x10000 && base_low == base % 0x10000 && base_mid == (base / 0x10000) % 0x100
            && base_high == (base / 0x1000000) % 0x100 && gran == (granularity / 16) * 16 + (limit / 0x10000) % 16)
            by (bit_vector)
            requires
                limit_low == (limit & 0xFFFF) as u16,
                base_low == (base & 0xFFFF) as u16,
                base_mid == ((base >> 16) & 0xFF) as u8,
                gran == (granularity & 0xF0) | (((limit >> 16) & 0x0F) as u8),
                base_high == ((base >> 24) & 0xFF) as u8,
        ;
        GdtEntry { limit_low, base_low, base_mid, access, granularity: gran, base_high }
    }
}

/// A 64-bit TSS descriptor: as a segment descriptor, then base bits 32-63
/// and a reserved word.
pub type TssEntryView = (u16, u16, u8, u8, u8, u8, u32, u32);

/// A TSS descriptor (two GDT slots).
#[derive(Clone, Copy)]
pub struct TssEntry {
    limit_low: u16,
    base_low: u16,
    base_mid: u8,
    access: u8,
    granularity: u8,
    base_high: u8,
    base_upper: u32,
    reserved: u32,
}

impl View for TssEntry {
    type V = TssEntryView;

    closed spec fn view(&self) -> TssEntryView {
        (
            self.limit_low,
            self.base_low,
            self.base_mid,
            self.access,
            self.granularity,
            self.base_high,
            self.base_upper,
            self.reserved,
        )
    }
}

/// The descriptor of an available 64-bit TSS at `base` with `limit`.
pub open spec fn spec_tss_entry(base: u64, limit: u32) -> TssEntryView {
    (
        (limit % 0x10000) as u16,
        (base % 0x10000) as u16,
        ((base / 0x10000) % 0x100) as u8,
        0x89u8,
        ((limit / 0x10000) % 16) as u8,
        ((base / 0x1000000) % 0x100) as u8,
        (base / 0x100000000) as u32,
        0u32,
    )
}

impl TssEntry {
    /// The descriptor's parts: those of a segment descriptor, then base
    /// bits 32-63 and the reserved word.
    pub fn fields(&self) -> (r: TssEntryView)
        ensures
            r == self@,
    {
        (
            self.limit_low,
            self.base_low,
            self.base_mid,
            self.access,
            self.granularity,
            self.base_high,
            self.base_upper,
            self.reserved,
        )
    }

    /// The empty descriptor.
    pub fn null() -> (r: Self)
        ensures
            r@ == (0u16, 0u16, 0u8, 0u8, 0u8, 0u8, 0u32, 0u32),
    {
        TssEntry {
            limit_low: 0,
            base_low: 0,
            base_mid: 0,
            access: 0,
            granularity: 0,
            base_high: 0,
            base_upper: 0,
            reserved: 0,
        }
    }

    /// The descriptor of a TSS: present, privilege 0, available 64-bit TSS.
    pub fn new(base: u64, limit: u32) -> (r: Self)
        ensures
            r@ == spec_tss_entry(base, limit),
    {
        let limit_low = (limit & 0xFFFF) as u16;
        let base_low = (base & 0xFFFF) as u16;
        let base_mid = ((base >> 16) & 0xFF) as u8;
        let gran = ((limit >> 16) & 0x0F) as u8;
        let base_high = ((base >> 24) & 0xFF) as u8;
        let base_upper = ((base >> 32) & 0xFFFFFFFF) as u32;
        assert(limit_low == limit % 0x10000 && gran == (limit / 0x10000) % 16 && base_low == base % 0x10000 && base_mid
            == (base / 0x10000) % 0x100 && base_high == (base / 0x1000000) % 0x100 && base_upper == base / 0x100000000)
            by (bit_vector)
            requires
                limit_low == (limit & 0xFFFF) as u16,
                gran == ((limit >> 16) & 0x0F) as u8,
                base_low == (base & 0xFFFF) as u16,
                base_mid == ((base >> 16) & 0xFF) as u8,
                base_high == ((base >> 24) & 0xFF) as u8,
                base_upper == ((base >> 32) & 0xFFFFFFFF) as u32,
        ;
        TssEntry { limit_low, base_low, base_mid, access: 0x89, granularity: gran, base_high, base_upper, reserved: 0 }
    }
}

/// The 64-bit Task State Segment.
pub struct Tss {
    /// Reserved.
    pub reserved1: u32,
    /// Stack pointers for privilege levels 0-2.
    pub rsp0: u64,
    pub rsp1: u64,
    pub rsp2: u64,
    /// Reserved.
    pub reserved2: u64,
    /// Interrupt stack table.
    pub ist1: u64,
    pub ist2: u64,
    pub ist3: u64,
    pub ist4: u64,
    pub ist5: u64,
    pub ist6: u64,
    pub ist7: u64,
    /// Reserved.
    pub reserved3: u64,
    /// Reserved.
    pub reserved4: u16,
    /// Offset of the I/O permission map: the TSS size, so there is none.
    pub iomap_base: u16,
}

impl Tss {
    /// A TSS with no stacks and no I/O permission map.
    pub fn new() -> (r: Self)
        ensures
            r.rsp0 == 0 && r.rsp1 == 0 && r.rsp2 == 0,
            r.ist1 == 0 && r.ist2 == 0 && r.ist3 == 0 && r.ist4 == 0 && r.ist5 == 0 && r.ist6 == 0 && r.ist7 == 0,
            r.iomap_base == TSS_SIZE,
    {
        Tss {
            reserved1: 0,
            rsp0: 0,
            rsp1: 0,
            rsp2: 0,
            reserved2: 0,
            ist1: 0,
            ist2: 0,
            ist3: 0,
            ist4: 0,
            ist5: 0,
            ist6: 0,
            ist7: 0,
            reserved3: 0,
            reserved4: 0,
            iomap_base: TSS_SIZE,
        }
    }
}

/// The operand of `lgdt`: table size minus one and address.
pub struct Gdtr {
    limit: u16,
    base: u64,
}

impl Gdtr {
    /// The limit and base.
    pub closed spec fn spec_fields(&self) -> (u16, u64) {
        (self.limit, self.base)
    }

    /// The limit: the table's size less one.
    pub fn limit(&self) -> (r: u16)
        ensures
            r == self.spec_fields().0,
    {
        self.limit
    }

    /// The table's address.
    pub fn base(&self) -> (r: u64)
        ensures
            r == self.spec_fields().1,
    {
        self.base
    }

    /// The operand for a table of `size` bytes at `base`.
    pub fn for_table(size: u16, base: u64) -> (r: Self)
        requires
            size > 0,
        ensures
            r.spec_fields() == ((size - 1) as u16, base),
    {
        Gdtr { limit: size - 1, base }
    }
}

/// The top of a downward-growing stack of `size` bytes at `start`.
pub fn stack_top(start: u64, size: u64) -> (r: u64)
    requires
        start + size <= u64::MAX,
    ensures
        r == start + size,
{
    start + size
}

/// The kernel's table: null, kernel code, kernel data, user code, user
/// data (base 0, limit 0xFFFFF, 4 KiB granularity; code 64-bit, data
/// 32-bit; user segments at privilege 3).
pub fn standard_entries() -> (r: [GdtEntry; 5])
    ensures
        r@[0]@ == (0u16, 0u16, 0u8, 0u8, 0u8, 0u8),
        r@[1]@ == spec_gdt_entry(0, 0xFFFFF, 0x9A, 0xA0),
        r@[2]@ == spec_gdt_entry(0, 0xFFFFF, 0x92, 0xC0),
        r@[3]@ == spec_gdt_entry(0, 0xFFFFF, 0xFA, 0xA0),
        r@[4]@ == spec_gdt_entry(0, 0xFFFFF, 0xF2, 0xC0),
{
    [
        GdtEntry::null(),
        GdtEntry::new(0, 0xFFFFF, 0x9A, 0xA0),
        GdtEntry::new(0, 0xFFFFF, 0x92, 0xC0),
        GdtEntry::new(0, 0xFFFFF, 0xFA, 0xA0),
        GdtEntry::new(0, 0xFFFFF, 0xF2, 0xC0),
    ]
}

} // verus!
