//! Physical and virtual address types and alignment helpers.

use vstd::prelude::*;
use vstd::arithmetic::power2::pow2;
use vstd::bits::low_bits_mask;

verus! {

/// Page size (4 KiB).
pub const PAGE_SIZE: usize = 4096;

/// `align` is a power of two that fits in 64 bits.
pub open spec fn is_pow2(align: u64) -> bool {
    exists|n: nat| n < 64 && align == pow2(n)
}

/// The value computed by `align_up`: `(val + align - 1)` with the low bits cleared.
pub open spec fn spec_align_up(val: u64, align: u64) -> u64 {
    ((val + (align - 1)) as u64) & !((align - 1) as u64)
}

/// The value computed by `align_down`: `val` with the low bits cleared.
pub open spec fn spec_align_down(val: u64, align: u64) -> u64 {
    val & !((align - 1) as u64)
}

proof fn lemma_align_down_pow2(val: u64, align: u64)
    requires
        is_pow2(align),
    ensures
        spec_align_down(val, align) == val - val % align,
{
    let n = choose|n: nat| n < 64 && align == pow2(n);
    vstd::bits::lemma_u64_low_bits_mask_is_mod(val, n);
    vstd::bits::lemma_u64_pow2_no_overflow(n);
    let m = (align - 1) as u64;
    assert(m == low_bits_mask(n) as u64);
    assert(val & !m == val - (val & m) && val & m <= val) by (bit_vector);
}

/// 4096 is a power of two.
pub proof fn lemma_page_size_pow2()
    ensures
        is_pow2(4096),
{
    vstd::arithmetic::power2::lemma2_to64();
    assert(4096u64 == pow2(12));
}

/// For a power-of-two alignment, rounding down gives the greatest multiple
/// of `align` that is at most `val`.
pub proof fn lemma_align_down_is_floor(val: u64, align: u64)
    requires
        is_pow2(align),
    ensures
        spec_align_down(val, align) % align == 0,
        spec_align_down(val, align) <= val,
        val - spec_align_down(val, align) < align,
{
    lemma_align_down_pow2(val, align);
    let n = choose|n: nat| n < 64 && align == pow2(n);
    vstd::arithmetic::power2::lemma_pow2_pos(n);
    vstd::arithmetic::div_mod::lemma_fundamental_div_mod(val as int, align as int);
    vstd::arithmetic::div_mod::lemma_mod_multiples_basic(val as int / align as int, align as int);
    assert((val / align) * align == align * (val / align)) by (nonlinear_arith);
}

/// For a power-of-two alignment (and no overflow), rounding up gives the
/// least multiple of `align` that is at least `val`.
pub proof fn lemma_align_up_is_ceiling(val: u64, align: u64)
    requires
        is_pow2(align),
        val + (align - 1) <= u64::MAX,
    ensures
        spec_align_up(val, align) % align == 0,
        val <= spec_align_up(val, align),
        spec_align_up(val, align) - val < align,
{
    let v2 = (val + (align - 1)) as u64;
    lemma_align_down_is_floor(v2, align);
}

/// Aligns a value upwards to the given alignment.
pub fn align_up(val: u64, align: u64) -> (r: u64)
    requires
        align > 0,
        val + (align - 1) <= u64::MAX,
    ensures
        r == spec_align_up(val, align),
        is_pow2(align) ==> r % align == 0 && val <= r && r - val < align,
{
    proof {
        if is_pow2(align) {
            lemma_align_up_is_ceiling(val, align);
        }
    }
    (val + (align - 1)) & !(align - 1)
}

/// Aligns a value downwards to the given alignment.
pub fn align_down(val: u64, align: u64) -> (r: u64)
    requires
        align > 0,
    ensures
        r == spec_align_down(val, align),
        is_pow2(align) ==> r % align == 0 && r <= val && val - r < align,
{
    proof {
        if is_pow2(align) {
            lemma_align_down_is_floor(val, align);
        }
    }
    val & !(align - 1)
}

/// A physical address.
#[derive(Debug, Clone, Copy, PartialEq, Eq, Structural, PartialOrd, Ord, Hash)]
pub struct PhysAddr(u64);

impl View for PhysAddr {
    type V = u64;

    closed spec fn view(&self) -> u64 {
        self.0
    }
}

impl PhysAddr {
    /// Creates a new physical address.
    pub fn new(addr: u64) -> (r: Self)
        ensures
            r@ == addr,
    {
        PhysAddr(addr)
    }

    /// Creates a physical address; physical addresses are kept as given.
    pub fn new_truncate(addr: u64) -> (r: Self)
        ensures
            r@ == addr,
    {
        PhysAddr(addr)
    }

    /// Returns the raw address value.
    pub fn as_u64(self) -> (r: u64)
        ensures
            r == self@,
    {
        self.0
    }

    /// Checks whether the address is a multiple of `align`.
    pub fn is_aligned(self, align: u64) -> (r: bool)
        requires
            align > 0,
        ensures
            r == (self@ % align == 0),
    {
        self.0 % align == 0
    }

    /// Aligns the address upwards.
    pub fn align_up(self, align: u64) -> (r: Self)
        requires
            align > 0,
            self@ + (align - 1) <= u64::MAX,
        ensures
            r@ == spec_align_up(self@, align),
    {
        PhysAddr(align_up(self.0, align))
    }

    /// Aligns the address downwards.
    pub fn align_down(self, align: u64) -> (r: Self)
        requires
            align > 0,
        ensures
            r@ == spec_align_down(self@, align),
    {
        PhysAddr(align_down(self.0, align))
    }
}

/// Bits 48..63 set: the upper half of a sign-extended 48-bit address.
pub const CANONICAL_HIGH_BITS: u64 = 0xFFFF_0000_0000_0000;

/// The canonical form of `addr` that `VirtAddr::new_truncate` builds: the
/// low 48 bits are kept and bit 47 is copied into bits 48..63.
pub open spec fn spec_sign_extend(addr: u64) -> u64 {
    if addr & 0x8000_0000_0000u64 != 0 {
        addr | CANONICAL_HIGH_BITS
    } else {
        addr & 0x0000_FFFF_FFFF_FFFFu64
    }
}

/// A 64-bit address is canonical when it lies in the lower half
/// `[0, 2^47)` or the upper half `[2^64 - 2^47, 2^64)`.
pub open spec fn spec_is_canonical(addr: u64) -> bool {
    addr < 0x0000_8000_0000_0000u64 || addr >= 0xFFFF_8000_0000_0000u64
}


impl From<u64> for PhysAddr {
    fn from(addr: u64) -> (r: Self) {
        PhysAddr::new(addr)
    }
}

impl vstd::std_specs::convert::FromSpecImpl<u64> for PhysAddr {
    open spec fn obeys_from_spec() -> bool {
        true
    }

    closed spec fn from_spec(addr: u64) -> Self {
        PhysAddr(addr)
    }
}

impl From<PhysAddr> for u64 {
    fn from(addr: PhysAddr) -> (r: Self) {
        addr.as_u64()
    }
}

impl vstd::std_specs::convert::FromSpecImpl<PhysAddr> for u64 {
    open spec fn obeys_from_spec() -> bool {
        true
    }

    open spec fn from_spec(addr: PhysAddr) -> Self {
        addr@
    }
}

/// A virtual address.
#[derive(Debug, Clone, Copy, PartialEq, Eq, Structural, PartialOrd, Ord, Hash)]
pub struct VirtAddr(u64);

impl View for VirtAddr {
    type V = u64;

    closed spec fn view(&self) -> u64 {
        self.0
    }
}

impl VirtAddr {
    /// Creates a new virtual address.
    pub fn new(addr: u64) -> (r: Self)
        ensures
            r@ == addr,
    {
        VirtAddr(addr)
    }

    /// Creates a virtual address in canonical form: the low 48 bits of
    /// `addr` are kept and bit 47 is extended into bits 48..63.
    pub fn new_truncate(addr: u64) -> (r: Self)
        ensures
            r@ == spec_sign_extend(addr),
            spec_is_canonical(r@),
            r@ & 0x0000_FFFF_FFFF_FFFFu64 == addr & 0x0000_FFFF_FFFF_FFFFu64,
            spec_is_canonical(addr) ==> r@ == addr,
    {
        let sign_bit = addr & (1u64 << 47u64);
        assert(1u64 << 47u64 == 0x8000_0000_0000u64) by (bit_vector);
        proof {
            lemma_new_truncate_is_canonical(addr);
            if spec_is_canonical(addr) {
                lemma_sign_extend_canonical_identity(addr);
            }
        }
        if sign_bit != 0 {
            VirtAddr(addr | 0xFFFF_0000_0000_0000)
        } else {
            VirtAddr(addr & 0x0000_FFFF_FFFF_FFFF)
        }
    }

    /// Returns the raw address value.
    pub fn as_u64(self) -> (r: u64)
        ensures
            r == self@,
    {
        self.0
    }

    /// Checks whether the address is canonical (bits 48..63 equal bit 47).
    pub fn is_canonical(self) -> (r: bool)
        ensures
            r == spec_is_canonical(self@),
    {
        let x = self.0;
        let bit_47 = (x >> 47u64) & 1;
        let upper_bits = (x >> 48u64) & 0xFFFF;
        assert(((x >> 47u64) & 1 == 0 && (x >> 48u64) & 0xFFFF == 0) || ((x >> 47u64) & 1 == 1
            && (x >> 48u64) & 0xFFFF == 0xFFFF) <==> (x < 0x0000_8000_0000_0000u64 || x
            >= 0xFFFF_8000_0000_0000u64)) by (bit_vector);
        (bit_47 == 0 && upper_bits == 0) || (bit_47 == 1 && upper_bits == 0xFFFF)
    }

    /// Checks whether the address is a multiple of `align`.
    pub fn is_aligned(self, align: u64) -> (r: bool)
        requires
            align > 0,
        ensures
            r == (self@ % align == 0),
    {
        self.0 % align == 0
    }

    /// Aligns the address upwards.
    pub fn align_up(self, align: u64) -> (r: Self)
        requires
            align > 0,
            self@ + (align - 1) <= u64::MAX,
        ensures
            r@ == spec_align_up(self@, align),
    {
        VirtAddr(align_up(self.0, align))
    }

    /// Aligns the address downwards.
    pub fn align_down(self, align: u64) -> (r: Self)
        requires
            align > 0,
        ensures
            r@ == spec_align_down(self@, align),
    {
        VirtAddr(align_down(self.0, align))
    }
}

/// Sign extension always yields a canonical address with the same low
/// 48 bits as its input.
pub proof fn lemma_new_truncate_is_canonical(addr: u64)
    ensures
        spec_is_canonical(spec_sign_extend(addr)),
        spec_sign_extend(addr) & 0x0000_FFFF_FFFF_FFFFu64 == addr & 0x0000_FFFF_FFFF_FFFFu64,
{
    assert((addr & 0x8000_0000_0000u64 != 0 ==> ((addr | 0xFFFF_0000_0000_0000u64)
        >= 0xFFFF_8000_0000_0000u64 && (addr | 0xFFFF_0000_0000_0000u64) & 0x0000_FFFF_FFFF_FFFFu64
        == addr & 0x0000_FFFF_FFFF_FFFFu64)) && (addr & 0x8000_0000_0000u64 == 0 ==> ((addr
        & 0x0000_FFFF_FFFF_FFFFu64) < 0x0000_8000_0000_0000u64 && (addr & 0x0000_FFFF_FFFF_FFFFu64)
        & 0x0000_FFFF_FFFF_FFFFu64 == addr & 0x0000_FFFF_FFFF_FFFFu64))) by (bit_vector);
}

/// A canonical address is left unchanged by sign extension.
pub proof fn lemma_sign_extend_canonical_identity(addr: u64)
    requires
        spec_is_canonical(addr),
    ensures
        spec_sign_extend(addr) == addr,
{
    assert((addr < 0x0000_8000_0000_0000u64 || addr >= 0xFFFF_8000_0000_0000u64) ==> ((addr
        & 0x8000_0000_0000u64 != 0 ==> (addr | 0xFFFF_0000_0000_0000u64) == addr) && (addr
        & 0x8000_0000_0000u64 == 0 ==> (addr & 0x0000_FFFF_FFFF_FFFFu64) == addr))) by (bit_vector);
}

impl From<u64> for VirtAddr {
    fn from(addr: u64) -> (r: Self) {
        VirtAddr::new(addr)
    }
}

impl vstd::std_specs::convert::FromSpecImpl<u64> for VirtAddr {
    open spec fn obeys_from_spec() -> bool {
        true
    }

    closed spec fn from_spec(addr: u64) -> Self {
        VirtAddr(addr)
    }
}

impl From<VirtAddr> for u64 {
    fn from(addr: VirtAddr) -> (r: Self) {
        addr.as_u64()
    }
}

impl vstd::std_specs::convert::FromSpecImpl<VirtAddr> for u64 {
    open spec fn obeys_from_spec() -> bool {
        true
    }

    open spec fn from_spec(addr: VirtAddr) -> Self {
        addr@
    }
}

} // verus!
