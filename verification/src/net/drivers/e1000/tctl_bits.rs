//! E1000 transmit control register bits.

use vstd::prelude::*;

verus! {

/// Transmit Enable.
pub const EN: u32 = 0x0000_0002;
/// Pad Short Packets.
pub const PSP: u32 = 0x0000_0008;

} // verus!
