//! Generate or parse Bao moves.
use vstd::prelude::*;
use vstd::string::{StringExecFns, StringSliceAdditionalSpecFns};
use vstd::utf8::{
    decode_utf8, encode_utf8, encode_utf8_decode_utf8, encode_utf8_valid_utf8,
    is_ascii_chars_encode_utf8, is_char_boundary, valid_utf8,
};
use crate::bao::board::{ring_ccw, ring_cw};
use crate::error::{MoveFactoryError, MoveFactoryErrorView, MoveFactoryResult};
use crate::bao::direction::Direction;
use crate::bao::game::{Game, GameView};
use crate::bao::moves::{flags, lemma_flag_table, Move};

verus! {

/// The lists `per(0)`, `per(1)`, ..., `per(n - 1)` joined in this order.
pub open spec fn gather(per: spec_fn(int) -> Seq<Move>, n: nat) -> Seq<Move>
    decreases n,
{
    if n == 0 {
        Seq::empty()
    } else {
        gather(per, (n - 1) as nat) + per(n - 1)
    }
}

/// A move is in a gathered list exactly when one of the joined lists has it.
pub proof fn lemma_gather_contains(per: spec_fn(int) -> Seq<Move>, n: nat, m: Move)
    ensures
        gather(per, n).contains(m) <==> exists|i: int| 0 <= i < n && #[trigger] per(i).contains(m),
    decreases n,
{
    if n > 0 {
        let head = gather(per, (n - 1) as nat);
        let last = per(n - 1);
        lemma_gather_contains(per, (n - 1) as nat, m);
        if gather(per, n).contains(m) {
            let k = choose|k: int| 0 <= k < (head + last).len() && (head + last)[k] == m;
            if k >= head.len() {
                assert(last.contains(m));
            }
        }
        if exists|i: int| 0 <= i < n && #[trigger] per(i).contains(m) {
            let i = choose|i: int| 0 <= i < n && #[trigger] per(i).contains(m);
            if i == n - 1 {
                let k = choose|k: int| 0 <= k < last.len() && last[k] == m;
                assert((head + last)[head.len() + k] == m);
            } else {
                let k = choose|k: int| 0 <= k < head.len() && head[k] == m;
                assert((head + last)[k] == m);
            }
        }
    }
}

/// No list is longer than what each of its parts can hold.
pub proof fn lemma_gather_len(per: spec_fn(int) -> Seq<Move>, n: nat, width: nat)
    requires
        forall|i: int| 0 <= i < n ==> (#[trigger] per(i)).len() <= width,
    ensures
        gather(per, n).len() <= n * width,
    decreases n,
{
    if n > 0 {
        lemma_gather_len(per, (n - 1) as nat, width);
        assert(n * width == (n - 1) * width + width) by (nonlinear_arith);
    }
}

impl GameView {
    /// The opening phase lasts while the player to move has seeds in
    /// reserve.
    pub open spec fn is_namua(self) -> bool {
        self.current.seeds > 0
    }

    /// Front-row pit `source` of the player to move holds a seed and faces a
    /// seeded pit of the opponent.
    pub open spec fn can_capture(self, source: int) -> bool {
        0 <= source < 8 && self.current.pits[source] > 0 && self.other.pits[7 - source] > 0
    }

    /// Some front-row pit can capture.
    pub open spec fn any_capture(self) -> bool {
        exists|source: int| 0 <= source < 8 && self.can_capture(source)
    }

    /// The opening-phase captures from pit `source`: none if the pit cannot
    /// capture; at the two pits of either end the direction is forced (left
    /// for pits 0 and 1, right for pits 6 and 7); in between both.
    pub open spec fn namua_captures_from(self, source: int) -> Seq<Move> {
        if !self.can_capture(source) {
            Seq::empty()
        } else if source >= 6 {
            seq![Move::namua_capture_right_spec(source)]
        } else if source <= 1 {
            seq![Move::namua_capture_left_spec(source)]
        } else {
            seq![Move::namua_capture_right_spec(source), Move::namua_capture_left_spec(source)]
        }
    }

    /// The opening-phase captures, from pit 7 down to pit 0.
    pub open spec fn namua_captures(self) -> Seq<Move> {
        gather(|bit: int| self.namua_captures_from(7 - bit), 8)
    }

    /// The house is the only front-row pit of the player to move that holds
    /// a seed.
    pub open spec fn only_house(self) -> bool {
        &&& self.current.pits[4] > 0
        &&& forall|i: int| 0 <= i < 8 && i != 4 ==> #[trigger] self.current.pits[i] == 0
    }

    /// The opening-phase relays from pit `source`: both directions if the
    /// pit holds a seed and is not the house.
    pub open spec fn namua_relays_from(self, source: int) -> Seq<Move> {
        if self.current.pits[source] > 0 && source != 4 {
            seq![Move::namua_relay_right_spec(source), Move::namua_relay_left_spec(source)]
        } else {
            Seq::empty()
        }
    }

    /// The opening-phase relays: from the house if nothing else can move,
    /// else from every other seeded front-row pit, from pit 7 down to pit 0.
    pub open spec fn namua_relays(self) -> Seq<Move> {
        if self.only_house() {
            seq![Move::namua_relay_right_spec(4), Move::namua_relay_left_spec(4)]
        } else {
            gather(|bit: int| self.namua_relays_from(7 - bit), 8)
        }
    }

    /// The legal moves of the opening phase: the captures if there are any,
    /// else the relays.
    pub open spec fn namua_moves(self) -> Seq<Move> {
        if self.any_capture() {
            self.namua_captures()
        } else {
            self.namua_relays()
        }
    }

    /// The end-phase captures from pit `source`, which must hold at least
    /// two seeds: to the right if sowing the pit clockwise ends in a pit that
    /// can capture, to the left if sowing it counter-clockwise does.
    pub open spec fn mtaji_captures_from(self, source: int) -> Seq<Move> {
        let seeds = self.current.pits[source];
        if seeds < 2 {
            Seq::empty()
        } else {
            let right: Seq<Move> = if self.can_capture(ring_cw(source, seeds as int)) {
                seq![Move::mtaji_capture_right_spec(source)]
            } else {
                Seq::empty()
            };
            let left: Seq<Move> = if self.can_capture(ring_ccw(source, seeds as int)) {
                seq![Move::mtaji_capture_left_spec(source)]
            } else {
                Seq::empty()
            };
            right + left
        }
    }

    /// The end-phase captures, from pit 0 up to pit 15.
    pub open spec fn mtaji_captures(self) -> Seq<Move> {
        gather(|source: int| self.mtaji_captures_from(source), 16)
    }

    /// The end-phase relays from pit `source`: both directions if the pit
    /// holds at least two seeds.
    pub open spec fn mtaji_relays_from(self, source: int) -> Seq<Move> {
        if self.current.pits[source] >= 2 {
            seq![Move::mtaji_relay_right_spec(source), Move::mtaji_relay_left_spec(source)]
        } else {
            Seq::empty()
        }
    }

    /// The end-phase relays, from pit 0 up to pit 15.
    pub open spec fn mtaji_relays(self) -> Seq<Move> {
        gather(|source: int| self.mtaji_relays_from(source), 16)
    }

    /// The legal moves of the end phase: the captures if there are any, else
    /// the relays.
    pub open spec fn mtaji_moves(self) -> Seq<Move> {
        if self.mtaji_captures().len() > 0 {
            self.mtaji_captures()
        } else {
            self.mtaji_relays()
        }
    }

    /// The legal moves of the player to move, in the order in which they are
    /// generated.
    pub open spec fn legal_moves(self) -> Seq<Move> {
        if self.is_namua() {
            self.namua_moves()
        } else {
            self.mtaji_moves()
        }
    }
}

/// The value of a byte that is a decimal digit.
pub open spec fn digit_value(byte: u8) -> Option<i8> {
    if 48 <= byte <= 57 {
        Some((byte - 48) as i8)
    } else {
        None
    }
}

impl GameView {
    /// The move that a text of one byte stands for: a digit alone is an
    /// opening-phase capture from one of the two pits at either end, to the
    /// left from pits 1 and 2 and to the right from pits 7 and 8.
    pub open spec fn parse_edge(text: Seq<u8>) -> Result<Move, MoveFactoryErrorView> {
        match digit_value(text[0]) {
            None => Err(MoveFactoryErrorView::ParseError),
            Some(number) => if 1 <= number <= 2 {
                Ok(Move::namua_capture_left_spec(number - 1))
            } else if 7 <= number <= 8 {
                Ok(Move::namua_capture_right_spec(number - 1))
            } else {
                Err(MoveFactoryErrorView::ParseInvalidIndex(number))
            },
        }
    }

    /// The move that a text of two bytes stands for: a pit from 1 to 8 and
    /// `L` or `R`. It is a capture if the opponent's pit facing the source
    /// holds a seed, else a relay.
    pub open spec fn parse_pair(self, text: Seq<u8>) -> Result<Move, MoveFactoryErrorView> {
        match digit_value(text[0]) {
            None => Err(MoveFactoryErrorView::ParseError),
            Some(number) => if !(1 <= number <= 8) {
                Err(MoveFactoryErrorView::ParseInvalidIndex(number))
            } else if text[1] != 76 && text[1] != 82 {
                Err(MoveFactoryErrorView::ParseInvalidDirection(decode_utf8(text.subrange(1, 2))))
            } else {
                let source = number - 1;
                let captures = self.other.pits[7 - source] > 0;
                let left = text[1] == 76;
                Ok(
                    if captures && left {
                        Move::namua_capture_left_spec(source)
                    } else if captures {
                        Move::namua_capture_right_spec(source)
                    } else if left {
                        Move::namua_relay_left_spec(source)
                    } else {
                        Move::namua_relay_right_spec(source)
                    },
                )
            },
        }
    }

    /// The move that a text stands for, or why it stands for none. Only
    /// texts of one or two bytes are moves; whether the move is legal is not
    /// looked at.
    pub open spec fn parse_text(self, text: Seq<u8>) -> Result<Move, MoveFactoryErrorView> {
        if text.len() == 1 {
            Self::parse_edge(text)
        } else if text.len() == 2 {
            self.parse_pair(text)
        } else {
            Err(MoveFactoryErrorView::ParseInvalidLength(text.len() as usize))
        }
    }
}

impl GameView {
    /// What every legal move looks like. It starts from a pit of the board
    /// and belongs to the phase of the game. In the opening phase it starts
    /// from a seeded pit of the front row; it is a capture exactly when some
    /// pit can capture, and then its own pit can; at the two pits of either
    /// end a capture has the direction that the end forces. In the end phase
    /// it starts from a pit of at least two seeds.
    pub proof fn lemma_legal_move_shape(self, m: Move)
        requires
            self.valid(),
            self.legal_moves().contains(m),
        ensures
            0 <= m.index < 16,
            m.is_namua() == self.is_namua(),
            m.flags < 8,
            self.is_namua() ==> {
                &&& m.index < 8
                &&& self.current.pits[m.index as int] > 0
                &&& m.is_capture() == self.any_capture()
                &&& m.is_capture() ==> self.can_capture(m.index as int)
                &&& m.is_capture() && m.index <= 1 ==> !m.is_right()
                &&& m.is_capture() && m.index >= 6 ==> m.is_right()
                &&& !m.is_capture() && m.index == 4 ==> self.only_house()
            },
            !self.is_namua() ==> self.current.pits[m.index as int] >= 2,
    {
        lemma_flag_table();
        if self.is_namua() {
            if self.any_capture() {
                let per = |bit: int| self.namua_captures_from(7 - bit);
                lemma_gather_contains(per, 8, m);
                let bit = choose|bit: int| 0 <= bit < 8 && #[trigger] per(bit).contains(m);
                let from = self.namua_captures_from(7 - bit);
                let k = choose|k: int| 0 <= k < from.len() && from[k] == m;
            } else if self.only_house() {
                let from = self.namua_relays();
                let k = choose|k: int| 0 <= k < from.len() && from[k] == m;
            } else {
                let per = |bit: int| self.namua_relays_from(7 - bit);
                lemma_gather_contains(per, 8, m);
                let bit = choose|bit: int| 0 <= bit < 8 && #[trigger] per(bit).contains(m);
                let from = self.namua_relays_from(7 - bit);
                let k = choose|k: int| 0 <= k < from.len() && from[k] == m;
            }
        } else {
            if self.mtaji_captures().len() > 0 {
                let per = |source: int| self.mtaji_captures_from(source);
                lemma_gather_contains(per, 16, m);
                let source = choose|source: int|
                    0 <= source < 16 && #[trigger] per(source).contains(m);
                let from = self.mtaji_captures_from(source);
                let k = choose|k: int| 0 <= k < from.len() && from[k] == m;
            } else {
                let per = |source: int| self.mtaji_relays_from(source);
                lemma_gather_contains(per, 16, m);
                let source = choose|source: int|
                    0 <= source < 16 && #[trigger] per(source).contains(m);
                let from = self.mtaji_relays_from(source);
                let k = choose|k: int| 0 <= k < from.len() && from[k] == m;
            }
        }
    }

    /// A legal move can be played, unless it is an end-phase capture that
    /// starts in the back row, where no pit faces the opponent.
    pub proof fn lemma_legal_move_accepted(self, m: Move)
        requires
            self.valid(),
            self.legal_moves().contains(m),
            self.is_namua() || !m.is_capture() || m.index < 8,
        ensures
            self.accepts(m),
    {
        self.lemma_legal_move_shape(m);
    }

    /// Round trip: in the opening phase, reading the text of a legal move
    /// gives the move back.
    pub proof fn lemma_text_round_trip(self, m: Move)
        requires
            self.valid(),
            self.is_namua(),
            self.legal_moves().contains(m),
        ensures
            self.parse_text(encode_utf8(m.text())) == Ok::<Move, MoveFactoryErrorView>(m),
    {
        self.lemma_legal_move_shape(m);
        lemma_flag_table();
        let text = m.text();
        is_ascii_chars_encode_utf8(text);
        let bytes = encode_utf8(text);
        if text.len() == 2 {
            if !m.is_capture() {
                assert(!self.can_capture(m.index as int));
            }
        }
    }
}

/// No game has more than thirty-two legal moves.
pub proof fn lemma_legal_moves_len(game: GameView)
    ensures
        game.legal_moves().len() <= 32,
{
    lemma_gather_len(|bit: int| game.namua_captures_from(7 - bit), 8, 2);
    lemma_gather_len(|bit: int| game.namua_relays_from(7 - bit), 8, 2);
    lemma_gather_len(|source: int| game.mtaji_captures_from(source), 16, 2);
    lemma_gather_len(|source: int| game.mtaji_relays_from(source), 16, 2);
}

/// Whether `parsed` is what the rules say the text stands for.
pub open spec fn parsed_as(
    parsed: MoveFactoryResult<Move>,
    expected: Result<Move, MoveFactoryErrorView>,
) -> bool {
    match expected {
        Ok(m) => parsed == Ok::<Move, MoveFactoryError>(m),
        Err(error) => parsed is Err && parsed->Err_0@ == error,
    }
}

/// Generates the legal moves of a game, parses move text against it and
/// finds the follow-up of a move.
pub struct MoveFactory<'a> {
    game: &'a Game,
    moves: [Move; 32],
    num_moves: usize,
}

impl<'a> MoveFactory<'a> {
    /// The game that the factory looks at.
    pub closed spec fn game(&self) -> Game {
        *self.game
    }

    /// A factory for `game`, with no moves generated yet.
    pub fn new(game: &'a Game) -> (factory: Self)
        ensures
            factory.game() == *game,
    {
        MoveFactory { game, moves: [Move { index: 0, flags: 0 }; 32], num_moves: 0 }
    }

    /// The moves generated so far.
    pub closed spec fn listed(&self) -> Seq<Move> {
        self.moves@.subrange(0, self.num_moves as int)
    }

    /// Appends a move to the list.
    fn push(&mut self, m: Move)
        requires
            old(self).num_moves < 32,
        ensures
            final(self).listed() == old(self).listed().push(m),
            final(self).game() == old(self).game(),
            final(self).num_moves == old(self).num_moves + 1,
    {
        self.moves[self.num_moves] = m;
        self.num_moves += 1;
    }

    /// The legal moves of the player to move (see
    /// [`GameView::legal_moves`]).
    pub fn get_legal_moves(&mut self) -> (moves: &[Move])
        ensures
            moves@ == old(self).game()@.legal_moves(),
            final(self).game() == old(self).game(),
    {
        self.num_moves = 0;
        if self.game.current_player.seeds == 0 {
            self.get_legal_moves_mtaji();
        } else {
            self.get_legal_moves_namua();
        }
        let all = self.moves.as_slice();
        vstd::slice::slice_subrange(all, 0, self.num_moves)
    }

    /// Whether front-row pit `source` can capture (see
    /// [`GameView::can_capture`]).
    fn can_capture(&self, source: i8) -> (can: bool)
        requires
            0 <= source < 16,
        ensures
            can == self.game()@.can_capture(source as int),
    {
        source < 8 && self.game.current_player.mashumo.get_seeds(source) > 0
            && self.game.other_player.mashumo.get_seeds(7 - source) > 0
    }

    /// Generates the legal moves of the opening phase (see
    /// [`GameView::namua_moves`]).
    fn get_legal_moves_namua(&mut self)
        requires
            old(self).num_moves == 0,
        ensures
            final(self).listed() == old(self).game()@.namua_moves(),
            final(self).game() == old(self).game(),
            final(self).num_moves <= 32,
    {
        let ghost game = self.game()@;
        let ghost captures = |bit: int| game.namua_captures_from(7 - bit);
        let ghost relays = |bit: int| game.namua_relays_from(7 - bit);
        let mut found: bool = false;
        let mut bits: i8 = 0;
        while bits < 8
            invariant
                0 <= bits <= 8,
                self.game() == old(self).game(),
                self.game()@ == game,
                captures == |bit: int| game.namua_captures_from(7 - bit),
                self.listed() == gather(captures, bits as nat),
                self.num_moves <= 2 * bits,
                found <==> exists|source: int| 7 - bits < source < 8 && game.can_capture(source),
            decreases 8 - bits,
        {
            let source_index = 7 - bits;
            if self.can_capture(source_index) {
                found = true;
                if bits <= 1 {
                    self.push(Move::namua_capture_right(source_index));
                } else if bits >= 6 {
                    self.push(Move::namua_capture_left(source_index));
                } else {
                    self.push(Move::namua_capture_right(source_index));
                    self.push(Move::namua_capture_left(source_index));
                }
            }
            bits += 1;
        }
        if found {
            return ;
        }
        assert(self.listed() =~= Seq::empty()) by {
            lemma_gather_len(captures, 8, 0);
        }

        let mut house_only: bool = self.game.current_player.mashumo.get_seeds(4) > 0;
        let mut index: i8 = 0;
        while index < 8
            invariant
                0 <= index <= 8,
                self.game() == old(self).game(),
                self.game()@ == game,
                house_only <==> (game.current.pits[4] > 0 && forall|i: int|
                    0 <= i < index && i != 4 ==> #[trigger] game.current.pits[i] == 0),
            decreases 8 - index,
        {
            if index != 4 && self.game.current_player.mashumo.get_seeds(index) > 0 {
                house_only = false;
            }
            index += 1;
        }
        if house_only {
            // Only the 5th pit (index 4) is non-empty.
            self.push(Move::namua_relay_right(4));
            self.push(Move::namua_relay_left(4));
            return ;
        }
        bits = 0;
        while bits < 8
            invariant
                0 <= bits <= 8,
                self.game() == old(self).game(),
                self.game()@ == game,
                relays == |bit: int| game.namua_relays_from(7 - bit),
                self.listed() == gather(relays, bits as nat),
                self.num_moves <= 2 * bits,
            decreases 8 - bits,
        {
            let source_index = 7 - bits;
            if self.game.current_player.mashumo.get_seeds(source_index) > 0 && source_index != 4 {
                self.push(Move::namua_relay_right(source_index));
                self.push(Move::namua_relay_left(source_index));
            }
            bits += 1;
        }
    }

    /// Generates the legal moves of the end phase (see
    /// [`GameView::mtaji_moves`]).
    fn get_legal_moves_mtaji(&mut self)
        requires
            old(self).num_moves == 0,
        ensures
            final(self).listed() == old(self).game()@.mtaji_moves(),
            final(self).game() == old(self).game(),
            final(self).num_moves <= 32,
    {
        let ghost game = self.game()@;
        let ghost captures = |source: int| game.mtaji_captures_from(source);
        let ghost relays = |source: int| game.mtaji_relays_from(source);
        let mut source_index: i8 = 0;
        while source_index < 16
            invariant
                0 <= source_index <= 16,
                self.game() == old(self).game(),
                self.game()@ == game,
                captures == |source: int| game.mtaji_captures_from(source),
                self.listed() == gather(captures, source_index as nat),
                self.num_moves <= 2 * source_index,
            decreases 16 - source_index,
        {
            let seeds = self.game.current_player.mashumo.get_seeds(source_index);
            if seeds >= 2 {
                let shumo = self.game.current_player.mashumo.get_shumo_cw(
                    seeds as usize + 1,
                    source_index,
                );
                if self.can_capture(shumo.1) {
                    self.push(Move::mtaji_capture_right(source_index));
                }
                let shumo = self.game.current_player.mashumo.get_shumo_ccw(
                    seeds as usize + 1,
                    source_index,
                );
                if self.can_capture(shumo.1) {
                    self.push(Move::mtaji_capture_left(source_index));
                }
            }
            source_index += 1;
        }
        if self.num_moves > 0 {
            return ;
        }
        source_index = 0;
        while source_index < 16
            invariant
                0 <= source_index <= 16,
                self.game() == old(self).game(),
                self.game()@ == game,
                relays == |source: int| game.mtaji_relays_from(source),
                self.listed() == gather(relays, source_index as nat),
                self.num_moves <= 2 * source_index,
            decreases 16 - source_index,
        {
            if self.game.current_player.mashumo.get_seeds(source_index) >= 2 {
                self.push(Move::mtaji_relay_right(source_index));
                self.push(Move::mtaji_relay_left(source_index));
            }
            source_index += 1;
        }
    }

    /// Reads the digit at the start of a move's text.
    fn parse_digit(byte: u8) -> (digit: Option<i8>)
        ensures
            digit == digit_value(byte),
    {
        if 48 <= byte && byte <= 57 {
            Some((byte - 48) as i8)
        } else {
            None
        }
    }

    /// Reads a move from its text (see [`GameView::parse_text`]). Whether
    /// the move is legal is not checked.
    pub fn parse_move(&self, s: &str) -> (parsed: MoveFactoryResult<Move>)
        ensures
            parsed_as(parsed, self.game()@.parse_text(s.spec_bytes())),
    {
        let bytes = s.as_bytes();
        if bytes.len() == 1 {
            // Always a capture and always namua. Get index and direction.
            // Examples: "1", "2", "7", "8".
            match Self::parse_digit(bytes[0]) {
                None => Err(MoveFactoryError::ParseError),
                Some(index) => {
                    if 1 <= index && index <= 2 {
                        Ok(Move::namua_capture_left(index - 1))
                    } else if 7 <= index && index <= 8 {
                        Ok(Move::namua_capture_right(index - 1))
                    } else {
                        Err(MoveFactoryError::ParseInvalidIndex(index))
                    }
                },
            }
        } else if bytes.len() == 2 {
            // Either a capture in the center or a non-capture. Always namua.
            // Examples: "5L", "5R", "3L", "3R".
            let index = match Self::parse_digit(bytes[0]) {
                None => {
                    return Err(MoveFactoryError::ParseError);
                },
                Some(index) => index,
            };
            if !(1 <= index && index <= 8) {
                return Err(MoveFactoryError::ParseInvalidIndex(index));
            }
            let left = bytes[1] == 76;
            if !left && bytes[1] != 82 {
                proof {
                    encode_utf8_valid_utf8(s@);
                    reveal_with_fuel(is_char_boundary, 2);
                    reveal_with_fuel(valid_utf8, 2);
                }
                let (_, direction) = s.split_at(1);
                proof {
                    encode_utf8_decode_utf8(direction@);
                }
                return Err(MoveFactoryError::ParseInvalidDirection(String::from_str(direction)));
            }
            if self.game.other_player.mashumo.get_seeds(8 - index) > 0 {
                if left {
                    Ok(Move::namua_capture_left(index - 1))
                } else {
                    Ok(Move::namua_capture_right(index - 1))
                }
            } else {
                if left {
                    Ok(Move::namua_relay_left(index - 1))
                } else {
                    Ok(Move::namua_relay_right(index - 1))
                }
            }
        } else {
            Err(MoveFactoryError::ParseInvalidLength(s.len()))
        }
    }

    /// The move that follows a move which ended in pit `index` (see
    /// [`GameView::follow_up`]).
    pub fn get_follow_up_move_at_index(
        &self,
        index: i8,
        direction: Direction,
        is_mtaji_turn: bool,
    ) -> (follow: Option<Move>)
        requires
            0 <= index < 16,
        ensures
            follow == self.game()@.follow_up(index as int, direction, is_mtaji_turn),
            follow matches Some(m) ==> m.index == index && !m.is_namua() && (m.is_capture()
                ==> index < 8),
    {
        proof {
            lemma_flag_table();
        }
        // Check if the current player is "kufa".
        if self.game.current_player.mashumo.get_seeds(index) < 2 {
            return None;
        }
        // Check if the current player has a capture move.

        let flag_direction = if direction == Direction::Clockwise {
            flags::DIRECTION_R
        } else {
            0
        };
        if is_mtaji_turn {
            if let Some(capture_index) = self.game.current_player.mashumo.get_shumo_opposite(index) {
                let capturable_seeds = self.game.other_player.mashumo.get_seeds(capture_index);
                if capturable_seeds > 0 {
                    let move_flags = if index <= 1 {
                        flags::CAPTURE | flags::RELAY
                    } else if index >= 6 {
                        flags::CAPTURE | flags::RELAY | flags::DIRECTION_R
                    } else {
                        flags::CAPTURE | flag_direction | flags::RELAY
                    };
                    return Some(Move { index, flags: move_flags });
                }
            }
        }
        // Don't allow relay sowing from the nyumba.

        if !is_mtaji_turn && index == 4 {
            return None;
        }
        // The current player has a relay move.

        Some(
            Move {
                index,
                flags: flag_direction | flags::RELAY,  // Continue in the same direction.
            },
        )
    }
}

} // verus!
