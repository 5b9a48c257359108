//! Local APIC: detection from the CPUID and MSR values, register
//! addresses, and which controller receives the end-of-interrupt.

use vstd::prelude::*;

verus! {

/// The MSR holding the APIC base address.
pub const APIC_BASE_MSR: u32 = 0x1B;
/// Local APIC ID register offset.
pub const APIC_ID: u32 = 0x020;
/// End Of Interrupt register offset.
pub const APIC_EOI: u32 = 0x0B0;
/// Timer Initial Count register offset.
pub const APIC_TIMER_INIT: u32 = 0x380;
/// Timer Current Count register offset.
pub const APIC_TIMER_CURRENT: u32 = 0x390;
/// Timer Divide Configuration register offset.
pub const APIC_TIMER_DIV: u32 = 0x3E0;
/// Version register offset.
pub const APIC_VERSION: u32 = 0x030;
/// Task Priority register offset.
pub const APIC_TPR: u32 = 0x080;
/// Spurious Interrupt Vector register offset.
pub const APIC_SPURIOUS: u32 = 0x0F0;
/// Local Vector Table timer entry offset.
pub const APIC_LVT_TIMER: u32 = 0x320;
/// Local Vector Table LINT0 entry offset.
pub const APIC_LVT_LINT0: u32 = 0x350;
/// Local Vector Table LINT1 entry offset.
pub const APIC_LVT_LINT1: u32 = 0x360;
/// Local Vector Table error entry offset.
pub const APIC_LVT_ERROR: u32 = 0x370;

/// The bit fields the APIC code reads, as arithmetic.
proof fn lemma_apic_bits(x: u32, b: u64)
    ensures
        ((x & 0x200) != 0) == ((x / 512) % 2 == 1),
        (x >> 24) as u8 == (x / 0x100_0000) as u8,
        ((b & 0x800) != 0) == ((b / 2048) % 2 == 1),
        b & 0xFFFF_F000 == (b % 0x1_0000_0000) / 4096 * 4096,
{
    assert(((x & 0x200) != 0) == ((x / 512) % 2 == 1) && (x >> 24) as u8 == (x / 0x100_0000) as u8 && ((b & 0x800)
        != 0) == ((b / 2048) % 2 == 1) && b & 0xFFFF_F000 == (b % 0x1_0000_0000) / 4096 * 4096) by (bit_vector);
}

/// Whether CPUID leaf 1's EDX reports an APIC (bit 9).
pub fn cpuid_has_apic(edx: u32) -> (r: bool)
    ensures
        r == ((edx / 512) % 2 == 1),
{
    proof {
        lemma_apic_bits(edx, 0);
    }
    (edx & 0x200) != 0
}

/// The local APIC: its base MSR value and whether it is in use.
pub struct Apic {
    base_addr: u64,
    enabled: bool,
}

impl Apic {
    /// The base MSR value.
    pub closed spec fn spec_base(&self) -> u64 {
        self.base_addr
    }

    /// Whether the APIC is in use.
    pub closed spec fn spec_enabled(&self) -> bool {
        self.enabled
    }

    /// Not detected, not in use.
    pub fn new() -> (r: Self)
        ensures
            r.spec_base() == 0,
            !r.spec_enabled(),
    {
        Apic { base_addr: 0, enabled: false }
    }

    /// Records the APIC the CPU reports (`supported` from CPUID, `base_msr`
    /// read from the base MSR). The APIC stays unused: its registers are
    /// not mapped.
    pub fn init(&mut self, supported: bool, base_msr: u64) -> (r: Result<(), &'static str>)
        ensures
            !supported ==> r == Err::<(), &'static str>("APIC not supported by CPU") && final(self).spec_base()
                == old(self).spec_base() && final(self).spec_enabled() == old(self).spec_enabled(),
            supported ==> r is Ok && final(self).spec_base() == base_msr && !final(self).spec_enabled(),
    {
        if !supported {
            return Err("APIC not supported by CPU");
        }
        self.base_addr = base_msr;
        self.enabled = false;
        Ok(())
    }

    /// Whether the base MSR marks the APIC as enabled (bit 11).
    pub fn msr_enabled(&self) -> (r: bool)
        ensures
            r == ((self.spec_base() / 2048) % 2 == 1),
    {
        proof {
            lemma_apic_bits(0, self.base_addr);
        }
        (self.base_addr & 0x800) != 0
    }

    /// The physical base address of the registers (the MSR value with its
    /// low 12 bits and bits above 31 cleared).
    pub fn base_address(&self) -> (r: u64)
        ensures
            r == (self.spec_base() % 0x1_0000_0000) / 4096 * 4096,
    {
        proof {
            lemma_apic_bits(0, self.base_addr);
        }
        self.base_addr & 0xFFFF_F000
    }

    /// The address of a register.
    pub fn register_address(&self, offset: u32) -> (r: u64)
        ensures
            r == (self.spec_base() % 0x1_0000_0000) / 4096 * 4096 + offset,
    {
        let base = self.base_address();
        assert(base <= 0xFFFF_F000) by (nonlinear_arith)
            requires
                base == (self.spec_base() % 0x1_0000_0000) / 4096 * 4096,
        ;
        base + offset as u64
    }

    /// Whether the APIC is in use.
    pub fn is_enabled(&self) -> (r: bool)
        ensures
            r == self.spec_enabled(),
    {
        self.enabled
    }

    /// The processor's APIC ID from the ID register's value (its top
    /// byte); 0 when the APIC is not in use.
    pub fn get_id(&self, id_register: u32) -> (r: u8)
        ensures
            r == (if self.spec_enabled() { (id_register / 0x100_0000) as u8 } else { 0 }),
    {
        if self.enabled {
            proof {
                lemma_apic_bits(id_register, 0);
            }
            (id_register >> 24) as u8
        } else {
            0
        }
    }

    /// Whether an end-of-interrupt goes to this APIC (when in use).
    pub fn takes_eoi(&self) -> (r: bool)
        ensures
            r == self.spec_enabled(),
    {
        self.enabled
    }
}

/// Which controller gets an end-of-interrupt: the APIC when one was set
/// up and is in use, the legacy PIC otherwise.
pub fn eoi_goes_to_apic(apic: Option<&Apic>) -> (r: bool)
    ensures
        r == (match apic {
            Some(a) => a.spec_enabled(),
            None => false,
        }),
{
    match apic {
        Some(a) => a.is_enabled(),
        None => false,
    }
}

/// Whether an APIC was set up and is in use.
pub fn is_available(apic: Option<&Apic>) -> (r: bool)
    ensures
        r == (match apic {
            Some(a) => a.spec_enabled(),
            None => false,
        }),
{
    eoi_goes_to_apic(apic)
}

} // verus!
