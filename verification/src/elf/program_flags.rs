//! Program header permission flags.

use vstd::prelude::*;

verus! {

/// Segment is executable.
pub const PF_X: u32 = 1;

/// Segment is writable.
pub const PF_W: u32 = 2;

/// Segment is readable.
pub const PF_R: u32 = 4;

} // verus!
