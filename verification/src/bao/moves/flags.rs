//! Bit flags of a move.
use vstd::prelude::*;

verus! {

/// Set when the move is played to the right.
pub const DIRECTION_R: u8 = 0b0000_0001;

/// Set when the move introduces a seed from the reserve (opening phase).
pub const NAMUA: u8 = 0b0000_0010;

/// Set when the move captures.
pub const CAPTURE: u8 = 0b0000_0100;

/// Set on the follow-up moves of a chain.
pub const RELAY: u8 = 0b0000_1000;

} // verus!
