//! E1000 device control register bits.

use vstd::prelude::*;

verus! {

/// Full Duplex.
pub const FD: u32 = 0x0000_0001;
/// Auto-Speed Detection Enable.
pub const ASDE: u32 = 0x0000_0020;
/// Set Link Up.
pub const SLU: u32 = 0x0000_0040;
/// Device Reset.
pub const RST: u32 = 0x0400_0000;

} // verus!
