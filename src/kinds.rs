//! Relay event kinds used by the arena.

use vstd::prelude::*;

verus! {

/// Replaceable event that carries a room snapshot; relays keep the newest.
pub const ROOM: u16 = 30078;

/// Ephemeral event for in-room traffic; relays forward it without storing it.
pub const EPHEMERAL: u16 = 25000;

} // verus!
