//! Bao game state.
use vstd::prelude::*;
use crate::bao::board::{last_sown, lemma_ring_step, next_pit, one_more, ring, sown, ZobristKeys};
use crate::bao::direction::Direction;
use crate::bao::move_factory::MoveFactory;
use crate::bao::moves::{lemma_flag_table, Move};
use crate::bao::player::{pit_sum, Player, PlayerView};

verus! {

/// The largest number of follow-up moves that one turn plays. A chain that is
/// still running after that many follow-ups is cut there and play passes to
/// the opponent; no game of Bao comes near it.
pub const CHAIN_LIMIT: u64 = 0xffff_ffff_ffff_ffff;

/// The largest number of seeds that a game can hold without a pit ever
/// wrapping around.
pub const MAX_SEEDS: u8 = 255;

/// A game: the player to move and the opponent.
#[derive(Clone, Copy, Debug)]
pub struct Game {
    pub current_player: Player,
    pub other_player: Player,
}

/// What the rules see of a game.
pub struct GameView {
    pub current: PlayerView,
    pub other: PlayerView,
}

impl View for Game {
    type V = GameView;

    open spec fn view(&self) -> GameView {
        GameView { current: self.current_player@, other: self.other_player@ }
    }
}

impl GameView {
    /// Both boards have sixteen pits.
    pub open spec fn valid(self) -> bool {
        self.current.pits.len() == 16 && self.other.pits.len() == 16
    }

    /// The game at its start.
    pub open spec fn initial() -> GameView {
        GameView { current: PlayerView::initial(), other: PlayerView::initial() }
    }

    /// All the seeds in the game, on both boards and in both reserves.
    pub open spec fn total(self) -> int {
        self.current.total() + self.other.total()
    }

    /// The same game seen from the other side of the board.
    pub open spec fn swapped(self) -> GameView {
        GameView { current: self.other, other: self.current }
    }

    /// The game is over: the opponent has no seed left in the front row.
    pub open spec fn is_won(self) -> bool {
        self.other.front_empty()
    }

    /// The moves that [`Game::take_turn`] can play: the source pit is on the
    /// board, a capture starts in the front row (only there does a pit face
    /// one of the opponent's), and a move that takes a seed from the reserve
    /// finds one there.
    pub open spec fn accepts(self, m: Move) -> bool {
        &&& 0 <= m.index < 16
        &&& m.is_capture() ==> m.index < 8
        &&& m.is_namua() ==> self.current.seeds > 0
    }

    /// The current player with one reserve seed put into pit `index`, if
    /// `is_namua` says so.
    pub open spec fn with_reserve_seed(self, index: int, is_namua: bool) -> PlayerView {
        if is_namua {
            PlayerView {
                pits: self.current.pits.update(index, one_more(self.current.pits[index])),
                seeds: (self.current.seeds - 1) as u8,
                nyumba: self.current.nyumba,
            }
        } else {
            self.current
        }
    }

    /// A capture from front-row pit `source`: in the opening phase a reserve
    /// seed first goes into `source`; the opponent's pit facing `source` is
    /// emptied (which breaks the opponent's house if it is pit 4), and its
    /// seeds are sown into the mover's board from pit 0 clockwise or from
    /// pit 7 counter-clockwise. Returns the game and the pit of the last
    /// seed.
    pub open spec fn captured(self, source: int, direction: Direction, is_namua: bool) -> (
        GameView,
        int,
    ) {
        let target = 7 - source;
        let mover = self.with_reserve_seed(source, is_namua);
        let seeds = self.other.pits[target];
        let start: int = match direction {
            Direction::Clockwise => 0,
            Direction::CounterClockwise => 7,
        };
        (
            GameView {
                current: PlayerView {
                    pits: sown(mover.pits, start, direction, seeds as nat),
                    seeds: mover.seeds,
                    nyumba: mover.nyumba,
                },
                other: PlayerView {
                    pits: self.other.pits.update(target, 0),
                    seeds: self.other.seeds,
                    nyumba: self.other.nyumba && target != 4,
                },
            },
            last_sown(start, direction, seeds as nat),
        )
    }

    /// The number of seeds that a relay from pit `source` sows when the pit
    /// holds `taken` seeds: all of them, except that the house gives up at
    /// most two in the opening phase.
    pub open spec fn relay_count(source: int, taken: u8, is_namua: bool) -> u8 {
        if source == 4 && is_namua && taken > 2 {
            2
        } else {
            taken
        }
    }

    /// A relay from pit `source`: in the opening phase a reserve seed first
    /// goes into `source`; the pit is emptied and its seeds are sown one by
    /// one, starting with the neighbour of `source`. The house keeps what
    /// exceeds two seeds in the opening phase; in the end phase, emptying it
    /// in a turn that began with a capture breaks it. Returns the game and
    /// the pit of the last seed.
    pub open spec fn relayed(
        self,
        source: int,
        direction: Direction,
        is_namua: bool,
        is_capture_turn: bool,
    ) -> (GameView, int) {
        let mover = self.with_reserve_seed(source, is_namua);
        let taken = mover.pits[source];
        let count = Self::relay_count(source, taken, is_namua);
        let start = next_pit(source, direction);
        (
            GameView {
                current: PlayerView {
                    pits: sown(
                        mover.pits.update(source, (taken - count) as u8),
                        start,
                        direction,
                        count as nat,
                    ),
                    seeds: mover.seeds,
                    nyumba: mover.nyumba && !(source == 4 && !is_namua && is_capture_turn),
                },
                other: self.other,
            },
            last_sown(start, direction, count as nat),
        )
    }

    /// One move put on the board: the game after it and the pit where its
    /// last seed fell.
    pub open spec fn applied(self, m: Move, is_capture_turn: bool) -> (GameView, int) {
        if m.is_capture() {
            self.captured(m.index as int, m.get_direction(), m.is_namua())
        } else {
            self.relayed(m.index as int, m.get_direction(), m.is_namua(), is_capture_turn)
        }
    }

    /// The flags of the capture that follows a move ending in front-row pit
    /// `index`: at the two pits of either end the direction is forced, in
    /// between the move keeps the side it was played to.
    pub open spec fn follow_up_capture_flags(index: int, direction: Direction) -> u8 {
        if index <= 1 {
            12
        } else if index >= 6 {
            13
        } else if direction == Direction::Clockwise {
            13
        } else {
            12
        }
    }

    /// The move that follows a move ending in pit `index`. There is none if
    /// the pit holds fewer than two seeds. In a turn that began with a
    /// capture, a pit that faces a seeded pit of the opponent captures;
    /// otherwise the seeds are relayed on in the same direction, except that
    /// a turn that began without a capture stops at the house.
    pub open spec fn follow_up(self, index: int, direction: Direction, is_capture_turn: bool)
        -> Option<Move> {
        if self.current.pits[index] < 2 {
            None
        } else if is_capture_turn && index <= 7 && self.other.pits[7 - index] > 0 {
            Some(Move { index: index as i8, flags: Self::follow_up_capture_flags(index, direction) })
        } else if !is_capture_turn && index == 4 {
            None
        } else if direction == Direction::Clockwise {
            Some(Move { index: index as i8, flags: 9 })
        } else {
            Some(Move { index: index as i8, flags: 8 })
        }
    }

    /// The game after move `m` and the follow-ups it triggers, of which at
    /// most `fuel` are played. The chain stops without a change of sides as
    /// soon as the opponent's front row is empty; otherwise it stops when no
    /// follow-up is due, and the players change sides.
    pub open spec fn chain(self, m: Move, is_capture_turn: bool, fuel: nat) -> GameView
        decreases fuel,
    {
        let (next, end) = self.applied(m, is_capture_turn);
        if next.is_won() {
            next
        } else {
            match next.follow_up(end, m.get_direction(), is_capture_turn) {
                None => next.swapped(),
                Some(follow) => if fuel == 0 {
                    next.swapped()
                } else {
                    next.chain(follow, is_capture_turn, (fuel - 1) as nat)
                },
            }
        }
    }

    /// The game after a turn that starts with move `m`. Whether the first
    /// move captures decides how the house is treated in the whole turn.
    pub open spec fn after_turn(self, m: Move) -> GameView {
        self.chain(m, m.is_capture(), CHAIN_LIMIT as nat)
    }
}

/// Changing one pit changes the number of seeds on the board by as much, and
/// no pit holds more than the whole board.
pub proof fn lemma_sum_update(pits: Seq<u8>, index: int, value: u8)
    requires
        pits.len() == 16,
        0 <= index < 16,
    ensures
        pit_sum(pits.update(index, value)) == pit_sum(pits) - pits[index] + value,
        pits[index] <= pit_sum(pits),
{
    let next = pits.update(index, value);
    assert forall|j: int| 0 <= j < 16 implies #[trigger] next[j] == (if j == index {
        value
    } else {
        pits[j]
    }) by {}
    if index < 4 {
    } else if index < 8 {
    } else if index < 12 {
    } else {
    }
}

/// Sowing `count` seeds adds `count` seeds to the board, as long as the board
/// cannot overflow a pit.
pub proof fn lemma_sown_sum(pits: Seq<u8>, start: int, direction: Direction, count: nat)
    requires
        pits.len() == 16,
        0 <= start < 16,
        pit_sum(pits) + count <= MAX_SEEDS,
    ensures
        sown(pits, start, direction, count).len() == 16,
        pit_sum(sown(pits, start, direction, count)) == pit_sum(pits) + count,
        0 <= last_sown(start, direction, count) < 16,
    decreases count,
{
    if count > 0 {
        lemma_sown_sum(pits, start, direction, (count - 1) as nat);
        lemma_ring_step(start, direction, count - 1);
        let before = sown(pits, start, direction, (count - 1) as nat);
        let at = ring(start, direction, count - 1);
        lemma_sum_update(before, at, one_more(before[at]));
    }
}

impl GameView {
    /// A move that the game accepts moves seeds but neither creates nor
    /// destroys any, and ends in a pit of the board.
    pub proof fn lemma_applied_conserves(self, m: Move, is_capture_turn: bool)
        requires
            self.valid(),
            self.accepts(m),
            self.total() <= MAX_SEEDS,
        ensures
            self.applied(m, is_capture_turn).0.valid(),
            self.applied(m, is_capture_turn).0.total() == self.total(),
            0 <= self.applied(m, is_capture_turn).1 < 16,
    {
        let source = m.index as int;
        let direction = m.get_direction();
        let mover = self.with_reserve_seed(source, m.is_namua());
        lemma_sum_update(self.current.pits, source, one_more(self.current.pits[source]));
        if m.is_capture() {
            let target = 7 - source;
            let seeds = self.other.pits[target];
            let start: int = match direction {
                Direction::Clockwise => 0,
                Direction::CounterClockwise => 7,
            };
            lemma_sum_update(self.other.pits, target, 0);
            lemma_sown_sum(mover.pits, start, direction, seeds as nat);
        } else {
            let taken = mover.pits[source];
            let count = Self::relay_count(source, taken, m.is_namua());
            let left = mover.pits.update(source, (taken - count) as u8);
            lemma_sum_update(mover.pits, source, (taken - count) as u8);
            lemma_ring_step(source, direction, 0);
            lemma_sown_sum(left, next_pit(source, direction), direction, count as nat);
        }
    }

    /// The follow-up of a move is a move that the game accepts.
    pub proof fn lemma_follow_up_accepted(
        self,
        index: int,
        direction: Direction,
        is_capture_turn: bool,
    )
        requires
            0 <= index < 16,
        ensures
            self.follow_up(index, direction, is_capture_turn) matches Some(m) ==> self.accepts(m),
    {
        lemma_flag_table();
    }

    /// A chain of moves neither creates nor destroys seeds.
    pub proof fn lemma_chain_conserves(self, m: Move, is_capture_turn: bool, fuel: nat)
        requires
            self.valid(),
            self.accepts(m),
            self.total() <= MAX_SEEDS,
        ensures
            self.chain(m, is_capture_turn, fuel).valid(),
            self.chain(m, is_capture_turn, fuel).total() == self.total(),
        decreases fuel,
    {
        self.lemma_applied_conserves(m, is_capture_turn);
        let (next, end) = self.applied(m, is_capture_turn);
        next.lemma_follow_up_accepted(end, m.get_direction(), is_capture_turn);
        if !next.is_won() && fuel > 0 {
            match next.follow_up(end, m.get_direction(), is_capture_turn) {
                None => {},
                Some(follow) => {
                    next.lemma_chain_conserves(follow, is_capture_turn, (fuel - 1) as nat);
                },
            }
        }
    }

    /// A move that empties the opponent's front row ends the turn at once:
    /// no follow-up is played, and the player who moved stays the player to
    /// move.
    pub proof fn lemma_winning_move_ends_turn(self, m: Move, is_capture_turn: bool, fuel: nat)
        requires
            self.applied(m, is_capture_turn).0.is_won(),
        ensures
            self.chain(m, is_capture_turn, fuel) == self.applied(m, is_capture_turn).0,
    {
    }

    /// Seed conservation: a turn moves seeds between the two boards and out
    /// of the mover's reserve, and the number of seeds in the game stays what
    /// it was.
    pub proof fn lemma_turn_conserves_seeds(self, m: Move)
        requires
            self.valid(),
            self.accepts(m),
            self.total() <= MAX_SEEDS,
        ensures
            self.after_turn(m).valid(),
            self.after_turn(m).total() == self.total(),
    {
        self.lemma_chain_conserves(m, m.is_capture(), CHAIN_LIMIT as nat);
    }

    /// The game after the turns that start with `moves`, played one after
    /// the other, if the game accepts each move where it is played.
    pub open spec fn after_line(self, moves: Seq<Move>) -> Option<GameView>
        decreases moves.len(),
    {
        if moves.len() == 0 {
            Some(self)
        } else {
            match self.after_line(moves.drop_last()) {
                Some(game) => if game.accepts(moves.last()) {
                    Some(game.after_turn(moves.last()))
                } else {
                    None
                },
                None => None,
            }
        }
    }

    /// The game after the turns that start with `moves`, played one after
    /// the other from the initial position.
    pub open spec fn played(moves: Seq<Move>) -> GameView
        decreases moves.len(),
    {
        if moves.len() == 0 {
            Self::initial()
        } else {
            Self::played(moves.drop_last()).after_turn(moves.last())
        }
    }

    /// Every move of `moves` is accepted by the game in which it is played.
    pub open spec fn playable(moves: Seq<Move>) -> bool
        decreases moves.len(),
    {
        moves.len() > 0 ==> Self::playable(moves.drop_last()) && Self::played(
            moves.drop_last(),
        ).accepts(moves.last())
    }

    /// Every position that play can reach from the initial position holds
    /// the 64 seeds that the game started with: 22 in either reserve and 10
    /// on either board.
    pub proof fn lemma_reachable_total(moves: Seq<Move>)
        requires
            Self::playable(moves),
        ensures
            Self::played(moves).valid(),
            Self::played(moves).total() == 64,
        decreases moves.len(),
    {
        if moves.len() > 0 {
            Self::lemma_reachable_total(moves.drop_last());
            Self::played(moves.drop_last()).lemma_turn_conserves_seeds(moves.last());
        }
    }
}

impl Game {
    /// Both occupancy masks are consistent with their boards.
    pub open spec fn wf(&self) -> bool {
        self.current_player.wf() && self.other_player.wf()
    }

    /// Both stored hashes are the hashes of their boards under `keys`.
    pub open spec fn hashed(&self, keys: &ZobristKeys) -> bool {
        self.current_player.hashed(keys) && self.other_player.hashed(keys)
    }

    /// A game at its start.
    pub fn new(keys: &ZobristKeys) -> (game: Game)
        ensures
            game@ == GameView::initial(),
            game.wf(),
            game.hashed(keys),
    {
        Game { current_player: Player::new(keys), other_player: Player::new(keys) }
    }

    /// Whether both occupancy masks are consistent with their boards.
    pub fn is_wf(&self) -> (ok: bool)
        ensures
            ok == self.wf(),
    {
        self.current_player.mashumo.is_wf() && self.other_player.mashumo.is_wf()
    }

    /// Whether [`Game::take_turn`] can play `m` (see [`GameView::accepts`]).
    pub fn accepts(&self, m: &Move) -> (ok: bool)
        ensures
            ok == self@.accepts(*m),
    {
        0 <= m.index && m.index < 16 && (!m.is_capture() || m.index < 8) && (!m.is_namua()
            || self.current_player.seeds > 0)
    }

    /// Plays a whole turn: the move `first_move` and every follow-up that it
    /// triggers (see [`GameView::chain`]), then lets the players change
    /// sides, unless the turn has won the game.
    pub fn take_turn(&mut self, keys: &ZobristKeys, first_move: &Move)
        requires
            old(self).wf(),
            old(self)@.accepts(*first_move),
        ensures
            final(self)@ == old(self)@.after_turn(*first_move),
            final(self).wf(),
            old(self).hashed(keys) ==> final(self).hashed(keys),
            old(self)@.total() <= MAX_SEEDS ==> final(self)@.total() == old(self)@.total(),
    {
        proof {
            if old(self)@.total() <= MAX_SEEDS {
                old(self)@.lemma_turn_conserves_seeds(*first_move);
            }
        }
        // Do we have a capture move?
        let is_mtaji_turn = first_move.is_capture();

        let mut m: Move = *first_move;
        let mut steps: u64 = 0;
        loop
            invariant_except_break
                self.wf(),
                self@.accepts(m),
                old(self).hashed(keys) ==> self.hashed(keys),
                old(self)@.after_turn(*first_move) == self@.chain(
                    m,
                    is_mtaji_turn,
                    (CHAIN_LIMIT - steps) as nat,
                ),
                old(self)@.total() <= MAX_SEEDS ==> old(self)@.after_turn(*first_move).total()
                    == old(self)@.total(),
            ensures
                self.wf(),
                old(self).hashed(keys) ==> self.hashed(keys),
                self@.swapped() == old(self)@.after_turn(*first_move),
            decreases CHAIN_LIMIT - steps,
        {
            // Put the move on the board.
            let end_index = if m.is_capture() {
                self.capture(keys, m.index, m.get_direction(), m.is_namua())
            } else {
                self.relay(keys, m.index, m.get_direction(), m.is_namua(), is_mtaji_turn)
            };

            // Check if the game is over.
            if self.other_player.mashumo.bitboard == 0 {
                proof {
                    self.other_player.mashumo.lemma_empty_mask_is_empty_front();
                }
                return ;
            }
            proof {
                self.other_player.mashumo.lemma_empty_mask_is_empty_front();
            }

            // Check follow-up moves.
            let direction = m.get_direction();
            let move_factory = MoveFactory::new(self);
            let follow = move_factory.get_follow_up_move_at_index(
                end_index,
                direction,
                is_mtaji_turn,
            );
            match follow {
                None => {
                    break ;
                },
                Some(next) => {
                    if steps == CHAIN_LIMIT {
                        break ;
                    }
                    m = next;
                    steps += 1;
                },
            }
        }

        // Swap players.
        let mover = self.current_player;
        self.current_player = self.other_player;
        self.other_player = mover;
    }

    /// Puts one reserve seed into pit `index` of the player to move.
    fn introduce_seed(&mut self, keys: &ZobristKeys, index: i8)
        requires
            0 <= index < 16,
            old(self).current_player.seeds > 0,
            old(self).wf(),
        ensures
            final(self)@.current == old(self)@.with_reserve_seed(index as int, true),
            final(self).other_player == old(self).other_player,
            final(self).wf(),
            old(self).hashed(keys) ==> final(self).hashed(keys),
    {
        self.current_player.mashumo.increment_seeds(keys, index);
        self.current_player.seeds -= 1;
    }

    /// Plays one capture from front-row pit `source_index` (see
    /// [`GameView::captured`]) and returns the pit of the last seed sown.
    pub fn capture(
        &mut self,
        keys: &ZobristKeys,
        source_index: i8,
        direction: Direction,
        is_namua: bool,
    ) -> (end_index: i8)
        requires
            0 <= source_index < 8,
            is_namua ==> old(self).current_player.seeds > 0,
            old(self).wf(),
        ensures
            (final(self)@, end_index as int) == old(self)@.captured(
                source_index as int,
                direction,
                is_namua,
            ),
            0 <= end_index < 16,
            final(self).wf(),
            old(self).hashed(keys) ==> final(self).hashed(keys),
    {
        // If we're in the NAMUA phase and the move introduces a new seed, add it.
        let capture_index = 7 - source_index;
        if is_namua {
            self.introduce_seed(keys, source_index);
        }
        // Capture the seeds.

        let seeds = self.other_player.mashumo.get_and_empty_seeds(keys, capture_index);
        if capture_index == 4 {
            // Nyumba capture!
            self.other_player.nyumba = false;
        }
        match direction {
            Direction::Clockwise => self.current_player.mashumo.sow_cw(keys, 0, seeds as usize),
            Direction::CounterClockwise => self.current_player.mashumo.sow_ccw(
                keys,
                7,
                seeds as usize,
            ),
        }
    }

    /// Plays one relay from pit `source_index` (see [`GameView::relayed`])
    /// and returns the pit of the last seed sown.
    pub fn relay(
        &mut self,
        keys: &ZobristKeys,
        source_index: i8,
        direction: Direction,
        is_namua: bool,
        is_mtaji_turn: bool,
    ) -> (end_index: i8)
        requires
            0 <= source_index < 16,
            is_namua ==> old(self).current_player.seeds > 0,
            old(self).wf(),
        ensures
            (final(self)@, end_index as int) == old(self)@.relayed(
                source_index as int,
                direction,
                is_namua,
                is_mtaji_turn,
            ),
            0 <= end_index < 16,
            final(self).wf(),
            old(self).hashed(keys) ==> final(self).hashed(keys),
    {
        // If we're in the NAMUA phase and the move introduces a new seed, add it.
        if is_namua {
            self.introduce_seed(keys, source_index);
        }
        let mut seeds = self.current_player.mashumo.get_and_empty_seeds(keys, source_index);

        if source_index == 4 {
            // Special case: Nyumba
            if is_namua {
                // Only move 2 seeds.
                let old_seeds = seeds;
                seeds = if old_seeds < 2 {
                    old_seeds
                } else {
                    2
                };
                self.current_player.mashumo.set_seeds(keys, source_index, old_seeds - seeds);
            } else if is_mtaji_turn {
                // Go on a safari!
                self.current_player.nyumba = false;
            }
        }
        proof {
            lemma_ring_step(source_index as int, direction, 0);
            lemma_ring_step(source_index as int, direction, 1);
        }
        let ghost emptied = self.current_player.mashumo@;
        assert(emptied =~= old(self)@.with_reserve_seed(source_index as int, is_namua).pits.update(
            source_index as int,
            (old(self)@.with_reserve_seed(source_index as int, is_namua).pits[source_index as int]
                - seeds) as u8,
        ));

        match direction {
            Direction::Clockwise => {
                let (_, start_index) = self.current_player.mashumo.get_shumo_cw(2, source_index);
                self.current_player.mashumo.sow_cw(keys, start_index, seeds as usize)
            },
            Direction::CounterClockwise => {
                let (_, start_index) = self.current_player.mashumo.get_shumo_ccw(2, source_index);
                self.current_player.mashumo.sow_ccw(keys, start_index, seeds as usize)
            },
        }
    }
}

} // verus!
