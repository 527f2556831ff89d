//! Sowing directions around one player's ring of sixteen pits.
use vstd::prelude::*;
use vstd::string::StringExecFns;

verus! {

/// The sense in which seeds travel around the ring: clockwise steps to the
/// next higher pit index, counter-clockwise to the next lower one.
#[derive(Clone, Copy, Debug, PartialEq, Eq, Structural)]
pub enum Direction {
    Clockwise,
    CounterClockwise,
}

impl Direction {
    /// The short name of the direction.
    pub open spec fn text(self) -> Seq<char> {
        match self {
            Direction::Clockwise => "CW"@,
            Direction::CounterClockwise => "CCW"@,
        }
    }

    /// Renders the direction as `CW` or `CCW`.
    pub fn to_text(&self) -> (s: String)
        ensures
            s@ == self.text(),
    {
        match self {
            Direction::Clockwise => String::from_str("CW"),
            Direction::CounterClockwise => String::from_str("CCW"),
        }
    }
}

} // verus!
