//! E1000 register offsets.

use vstd::prelude::*;

verus! {

/// Device Control.
pub const CTRL: u32 = 0x0000;
/// Device Status.
pub const STATUS: u32 = 0x0008;
/// EEPROM Control.
pub const EECD: u32 = 0x0010;
/// EEPROM Read.
pub const EERD: u32 = 0x0014;
/// Extended Device Control.
pub const CTRL_EXT: u32 = 0x0018;
/// Interrupt Cause Read.
pub const ICR: u32 = 0x00C0;
/// Interrupt Mask Set.
pub const IMS: u32 = 0x00D0;
/// Receive Control.
pub const RCTL: u32 = 0x0100;
/// Transmit Control.
pub const TCTL: u32 = 0x0400;
/// Receive Descriptor Base Address Low.
pub const RDBAL: u32 = 0x2800;
/// Receive Descriptor Base Address High.
pub const RDBAH: u32 = 0x2804;
/// Receive Descriptor Length.
pub const RDLEN: u32 = 0x2808;
/// Receive Descriptor Head.
pub const RDH: u32 = 0x2810;
/// Receive Descriptor Tail.
pub const RDT: u32 = 0x2818;
/// Transmit Descriptor Base Address Low.
pub const TDBAL: u32 = 0x3800;
/// Transmit Descriptor Base Address High.
pub const TDBAH: u32 = 0x3804;
/// Transmit Descriptor Length.
pub const TDLEN: u32 = 0x3808;
/// Transmit Descriptor Head.
pub const TDH: u32 = 0x3810;
/// Transmit Descriptor Tail.
pub const TDT: u32 = 0x3818;
/// Receive Address Low.
pub const RAL: u32 = 0x5400;
/// Receive Address High.
pub const RAH: u32 = 0x5404;

} // verus!
