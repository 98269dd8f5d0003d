//! What a pooled connection is doing.

use vstd::prelude::*;

verus! {

/// Free to be claimed by a prompt or for eviction.
pub const IDLE: u8 = 0;

/// Claimed by a prompt.
pub const BUSY: u8 = 1;

/// Claimed for eviction.
pub const EVICTING: u8 = 2;

} // verus!
