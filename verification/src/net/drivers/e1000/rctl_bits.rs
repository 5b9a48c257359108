//! E1000 receive control register bits.

use vstd::prelude::*;

verus! {

/// Receiver Enable.
pub const EN: u32 = 0x0000_0002;
/// Store Bad Packets.
pub const SBP: u32 = 0x0000_0004;
/// Unicast Promiscuous Enable.
pub const UPE: u32 = 0x0000_0008;
/// Multicast Promiscuous Enable.
pub const MPE: u32 = 0x0000_0010;
/// Broadcast Accept Mode.
pub const BAM: u32 = 0x0000_8000;
/// Buffer Size 2048.
pub const BSIZE_2048: u32 = 0x0000_0000;
/// Strip Ethernet CRC.
pub const SECRC: u32 = 0x0400_0000;

} // verus!
