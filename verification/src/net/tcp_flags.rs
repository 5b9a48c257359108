//! TCP header flag bits.

use vstd::prelude::*;

verus! {

/// No more data from the sender.
pub const FIN: u8 = 0x01;

/// Synchronize sequence numbers.
pub const SYN: u8 = 0x02;

/// Reset the connection.
pub const RST: u8 = 0x04;

/// Push function.
pub const PSH: u8 = 0x08;

/// Acknowledgment field significant.
pub const ACK: u8 = 0x10;

/// Urgent pointer field significant.
pub const URG: u8 = 0x20;

} // verus!
