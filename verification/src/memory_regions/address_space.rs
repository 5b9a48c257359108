//! The layout of the virtual address space.

use vstd::prelude::*;

verus! {

/// Start of the higher-half direct map.
pub const HHDM_START: u64 = 0xFFFF_8000_0000_0000;

/// Start of kernel space.
pub const KERNEL_SPACE_START: u64 = 0xFFFF_FFFF_8000_0000;

/// End of user space.
pub const USER_SPACE_END: u64 = 0x0000_8000_0000_0000;

/// Whether `addr` is in kernel space.
pub fn is_kernel_space(addr: u64) -> (r: bool)
    ensures
        r == (addr >= KERNEL_SPACE_START),
{
    addr >= KERNEL_SPACE_START
}

/// Whether `addr` is in user space.
pub fn is_user_space(addr: u64) -> (r: bool)
    ensures
        r == (addr < USER_SPACE_END),
{
    addr < USER_SPACE_END
}

/// Whether `addr` is in the direct map at `hhdm_offset`.
pub fn is_hhdm(addr: u64, hhdm_offset: u64) -> (r: bool)
    ensures
        r == (hhdm_offset <= addr < KERNEL_SPACE_START),
{
    addr >= hhdm_offset && addr < KERNEL_SPACE_START
}

/// The direct-map address of a physical address.
pub fn phys_to_hhdm(phys: u64, hhdm_offset: u64) -> (r: u64)
    requires
        hhdm_offset + phys <= u64::MAX,
    ensures
        r == hhdm_offset + phys,
{
    hhdm_offset + phys
}

/// The physical address of a direct-map address.
pub fn hhdm_to_phys(virt: u64, hhdm_offset: u64) -> (r: u64)
    requires
        virt >= hhdm_offset,
    ensures
        r == virt - hhdm_offset,
{
    virt - hhdm_offset
}

/// Converting to the direct map and back gives the physical address again.
pub proof fn lemma_hhdm_roundtrip(phys: u64, hhdm_offset: u64)
    requires
        hhdm_offset + phys <= u64::MAX,
    ensures
        (hhdm_offset + phys) - hhdm_offset == phys,
{
}

} // verus!
