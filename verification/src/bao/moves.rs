//! Bao moves.
use vstd::prelude::*;
use vstd::string::StringExecFns;
use crate::bao::direction::Direction;
use crate::text::{digit_char, digit_str};

pub mod flags;

verus! {

/// A compact encoded action: the pit it starts from and a set of bit flags
/// (see [`flags`]).
#[derive(Clone, Copy, Debug, Default, PartialEq, Eq, Structural)]
pub struct Move {
    pub index: i8,
    pub flags: u8,
}

/// The value of every combination of flags that a move can carry, and which
/// of the direction, opening and capture bits each value has set.
pub proof fn lemma_flag_table()
    by (bit_vector)
    ensures
        0u8 & 1u8 == 0,
        0u8 & 2u8 == 0,
        0u8 & 4u8 == 0,
        1u8 & 1u8 != 0,
        1u8 & 2u8 == 0,
        1u8 & 4u8 == 0,
        2u8 & 1u8 == 0,
        2u8 & 2u8 != 0,
        2u8 & 4u8 == 0,
        3u8 & 1u8 != 0,
        3u8 & 2u8 != 0,
        3u8 & 4u8 == 0,
        4u8 & 1u8 == 0,
        4u8 & 2u8 == 0,
        4u8 & 4u8 != 0,
        5u8 & 1u8 != 0,
        5u8 & 2u8 == 0,
        5u8 & 4u8 != 0,
        6u8 & 1u8 == 0,
        6u8 & 2u8 != 0,
        6u8 & 4u8 != 0,
        7u8 & 1u8 != 0,
        7u8 & 2u8 != 0,
        7u8 & 4u8 != 0,
        8u8 & 1u8 == 0,
        8u8 & 2u8 == 0,
        8u8 & 4u8 == 0,
        9u8 & 1u8 != 0,
        9u8 & 2u8 == 0,
        9u8 & 4u8 == 0,
        10u8 & 1u8 == 0,
        10u8 & 2u8 != 0,
        10u8 & 4u8 == 0,
        11u8 & 1u8 != 0,
        11u8 & 2u8 != 0,
        11u8 & 4u8 == 0,
        12u8 & 1u8 == 0,
        12u8 & 2u8 == 0,
        12u8 & 4u8 != 0,
        13u8 & 1u8 != 0,
        13u8 & 2u8 == 0,
        13u8 & 4u8 != 0,
        14u8 & 1u8 == 0,
        14u8 & 2u8 != 0,
        14u8 & 4u8 != 0,
        15u8 & 1u8 != 0,
        15u8 & 2u8 != 0,
        15u8 & 4u8 != 0,
        4u8 | 1u8 == 5u8,
        4u8 | 1u8 | 2u8 == 7u8,
        4u8 | 2u8 == 6u8,
        1u8 | 2u8 == 3u8,
        4u8 | 8u8 == 12u8,
        4u8 | 8u8 | 1u8 == 13u8,
        4u8 | 1u8 | 8u8 == 13u8,
        4u8 | 0u8 | 8u8 == 12u8,
        1u8 | 8u8 == 9u8,
        0u8 | 8u8 == 8u8,
{
}

impl Move {
    /// Whether the direction bit says "right".
    pub open spec fn is_right(&self) -> bool {
        self.flags & flags::DIRECTION_R != 0
    }

    /// Whether the move introduces a reserve seed.
    pub open spec fn spec_is_namua(&self) -> bool {
        self.flags & flags::NAMUA != 0
    }

    /// Whether the move captures.
    pub open spec fn spec_is_capture(&self) -> bool {
        self.flags & flags::CAPTURE != 0
    }

    /// The sense in which the move sows. A relay to the right sows clockwise
    /// and one to the left counter-clockwise; a capture sows the other way
    /// round, since captured seeds enter from the far end of the row.
    pub open spec fn spec_get_direction(&self) -> Direction {
        if self.is_right() != self.spec_is_capture() {
            Direction::Clockwise
        } else {
            Direction::CounterClockwise
        }
    }

    /// The move from pit `index` with the given flags.
    pub fn new(index: i8, flags: u8) -> (m: Move)
        ensures
            m == (Move { index, flags }),
    {
        Move { index, flags }
    }

    /// An end-phase capture played to the right.
    pub fn mtaji_capture_right(source_index: i8) -> (m: Move)
        ensures
            m == (Move { index: source_index, flags: 5 }),
            m == Move::mtaji_capture_right_spec(source_index as int),
    {
        proof {
            lemma_flag_table();
        }
        Move { index: source_index, flags: flags::CAPTURE | flags::DIRECTION_R }
    }

    /// The move that [`Move::mtaji_capture_right`] builds.
    pub open spec fn mtaji_capture_right_spec(source_index: int) -> Move {
        Move { index: source_index as i8, flags: 5 }
    }

    /// An end-phase capture played to the left.
    pub fn mtaji_capture_left(source_index: i8) -> (m: Move)
        ensures
            m == (Move { index: source_index, flags: 4 }),
            m == Move::mtaji_capture_left_spec(source_index as int),
    {
        proof {
            lemma_flag_table();
        }
        Move { index: source_index, flags: flags::CAPTURE }
    }

    /// The move that [`Move::mtaji_capture_left`] builds.
    pub open spec fn mtaji_capture_left_spec(source_index: int) -> Move {
        Move { index: source_index as i8, flags: 4 }
    }

    /// An end-phase relay played to the right.
    pub fn mtaji_relay_right(source_index: i8) -> (m: Move)
        ensures
            m == (Move { index: source_index, flags: 1 }),
            m == Move::mtaji_relay_right_spec(source_index as int),
    {
        proof {
            lemma_flag_table();
        }
        Move { index: source_index, flags: flags::DIRECTION_R }
    }

    /// The move that [`Move::mtaji_relay_right`] builds.
    pub open spec fn mtaji_relay_right_spec(source_index: int) -> Move {
        Move { index: source_index as i8, flags: 1 }
    }

    /// An end-phase relay played to the left.
    pub fn mtaji_relay_left(source_index: i8) -> (m: Move)
        ensures
            m == (Move { index: source_index, flags: 0 }),
            m == Move::mtaji_relay_left_spec(source_index as int),
    {
        proof {
            lemma_flag_table();
        }
        Move { index: source_index, flags: 0 }
    }

    /// The move that [`Move::mtaji_relay_left`] builds.
    pub open spec fn mtaji_relay_left_spec(source_index: int) -> Move {
        Move { index: source_index as i8, flags: 0 }
    }

    /// An opening-phase capture played to the right.
    pub fn namua_capture_right(source_index: i8) -> (m: Move)
        ensures
            m == (Move { index: source_index, flags: 7 }),
            m == Move::namua_capture_right_spec(source_index as int),
    {
        proof {
            lemma_flag_table();
        }
        Move { index: source_index, flags: flags::CAPTURE | flags::DIRECTION_R | flags::NAMUA }
    }

    /// The move that [`Move::namua_capture_right`] builds.
    pub open spec fn namua_capture_right_spec(source_index: int) -> Move {
        Move { index: source_index as i8, flags: 7 }
    }

    /// An opening-phase capture played to the left.
    pub fn namua_capture_left(source_index: i8) -> (m: Move)
        ensures
            m == (Move { index: source_index, flags: 6 }),
            m == Move::namua_capture_left_spec(source_index as int),
    {
        proof {
            lemma_flag_table();
        }
        Move { index: source_index, flags: flags::CAPTURE | flags::NAMUA }
    }

    /// The move that [`Move::namua_capture_left`] builds.
    pub open spec fn namua_capture_left_spec(source_index: int) -> Move {
        Move { index: source_index as i8, flags: 6 }
    }

    /// An opening-phase relay played to the right.
    pub fn namua_relay_right(source_index: i8) -> (m: Move)
        ensures
            m == (Move { index: source_index, flags: 3 }),
            m == Move::namua_relay_right_spec(source_index as int),
    {
        proof {
            lemma_flag_table();
        }
        Move { index: source_index, flags: flags::DIRECTION_R | flags::NAMUA }
    }

    /// The move that [`Move::namua_relay_right`] builds.
    pub open spec fn namua_relay_right_spec(source_index: int) -> Move {
        Move { index: source_index as i8, flags: 3 }
    }

    /// An opening-phase relay played to the left.
    pub fn namua_relay_left(source_index: i8) -> (m: Move)
        ensures
            m == (Move { index: source_index, flags: 2 }),
            m == Move::namua_relay_left_spec(source_index as int),
    {
        proof {
            lemma_flag_table();
        }
        Move { index: source_index, flags: flags::NAMUA }
    }

    /// The move that [`Move::namua_relay_left`] builds.
    pub open spec fn namua_relay_left_spec(source_index: int) -> Move {
        Move { index: source_index as i8, flags: 2 }
    }

    /// The sense in which the move sows (see [`Move::spec_get_direction`]).
    #[verifier::when_used_as_spec(spec_get_direction)]
    pub fn get_direction(&self) -> (d: Direction)
        ensures
            d == self.spec_get_direction(),
    {
        if self.flags & flags::DIRECTION_R != 0 {
            self.get_direction_r()
        } else {
            self.get_direction_l()
        }
    }

    /// The sense in which a move to the right sows.
    fn get_direction_r(self) -> (d: Direction)
        ensures
            d == (if self.spec_is_capture() {
                Direction::CounterClockwise
            } else {
                Direction::Clockwise
            }),
    {
        if self.flags & flags::CAPTURE != 0 {
            Direction::CounterClockwise
        } else {
            Direction::Clockwise
        }
    }

    /// The sense in which a move to the left sows.
    fn get_direction_l(self) -> (d: Direction)
        ensures
            d == (if self.spec_is_capture() {
                Direction::Clockwise
            } else {
                Direction::CounterClockwise
            }),
    {
        if self.flags & flags::CAPTURE != 0 {
            Direction::Clockwise
        } else {
            Direction::CounterClockwise
        }
    }

    /// Whether the move introduces a reserve seed.
    #[verifier::when_used_as_spec(spec_is_namua)]
    pub fn is_namua(&self) -> (b: bool)
        ensures
            b == self.spec_is_namua(),
    {
        self.flags & flags::NAMUA != 0
    }

    /// Whether the move captures.
    #[verifier::when_used_as_spec(spec_is_capture)]
    pub fn is_capture(&self) -> (b: bool)
        ensures
            b == self.spec_is_capture(),
    {
        self.flags & flags::CAPTURE != 0
    }

    /// The row letter of the move's text: opening-phase moves have none, the
    /// others `A` for the front row and `B` for the back row.
    pub open spec fn row_text(&self) -> Seq<char> {
        if self.spec_is_namua() {
            Seq::empty()
        } else if self.index <= 7 {
            seq!['A']
        } else {
            seq!['B']
        }
    }

    /// The pit number of the move's text: pits are counted from 1 in either
    /// row.
    pub open spec fn pit_number(&self) -> int {
        if self.index <= 7 {
            self.index + 1
        } else {
            self.index - 7
        }
    }

    /// The direction letter of the move's text: `L` or `R`, left out for a
    /// capture from the two pits at either end of the front row, where the
    /// direction is forced.
    pub open spec fn side_text(&self) -> Seq<char> {
        if self.spec_is_capture() && (self.index <= 1 || 6 <= self.index <= 7) {
            Seq::empty()
        } else if self.is_right() {
            seq!['R']
        } else {
            seq!['L']
        }
    }

    /// The text of the move: row letter, pit number and direction letter.
    pub open spec fn text(&self) -> Seq<char> {
        self.row_text() + seq![digit_char(self.pit_number())] + self.side_text()
    }

    /// Writes the move as text (see [`Move::text`]).
    pub fn to_text(&self) -> (text: String)
        requires
            0 <= self.index < 16,
        ensures
            text@ == self.text(),
    {
        proof {
            reveal_strlit("A");
            reveal_strlit("B");
            reveal_strlit("L");
            reveal_strlit("R");
            reveal_strlit("");
        }
        // Get the row of the move if necessary.
        let row = if self.flags & flags::NAMUA != 0 {
            ""
        } else if self.index <= 7 {
            "A"
        } else {
            "B"
        };
        // Get the direction of the move.
        let direction = if self.flags & flags::CAPTURE != 0 && (self.index <= 1 || (6 <= self.index
            && self.index <= 7)) {
            ""
        } else if self.flags & flags::DIRECTION_R != 0 {
            "R"
        } else {
            "L"
        };
        // Get the index of the move.
        let index: u8 = if self.index <= 7 {
            (self.index + 1) as u8
        } else {
            (self.index - 7) as u8
        };
        let mut text = String::from_str(row);
        text.append(digit_str(index));
        text.append(direction);
        text
    }

} // impl Move

/// Whether `m` is one of `moves`.
pub fn contains_move(moves: &[Move], m: Move) -> (found: bool)
    ensures
        found == moves@.contains(m),
{
    let mut i: usize = 0;
    while i < moves.len()
        invariant
            i <= moves@.len(),
            forall|j: int| 0 <= j < i ==> moves@[j] != m,
        decreases moves@.len() - i,
    {
        if moves[i] == m {
            return true;
        }
        i += 1;
    }
    false
}

} // verus!
