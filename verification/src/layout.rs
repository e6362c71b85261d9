//! Where the fixed structures stand in guest memory.

use vstd::prelude::*;

verus! {

/// Address of the RSDP. A guest looks for it from here on, on every 16-byte
/// boundary below the first megabyte.
pub const RSDP_ADDR: u64 = 0x000e_0000;

} // verus!
