//! Orders the legal moves of a position for the search.
use vstd::prelude::*;
use crate::bao::board::HOUSE;
use crate::bao::game::{Game, GameView};
use crate::bao::move_factory::MoveFactory;
use crate::bao::moves::Move;

verus! {

/// A move and the score by which the search orders it.
#[derive(Copy, Clone, Debug)]
pub struct ScoredMove {
    pub m: Move,
    pub score: i16,
}

impl ScoredMove {
    /// The move `m` with the score `score`.
    pub fn new(m: Move, score: i16) -> (scored: ScoredMove)
        ensures
            scored == (ScoredMove { m, score }),
    {
        ScoredMove { m, score }
    }
}

impl Default for ScoredMove {
    /// The move from pit 0 to the left, with no score.
    fn default() -> (scored: ScoredMove)
        ensures
            scored == (ScoredMove { m: Move { index: 0, flags: 0 }, score: 0 }),
    {
        ScoredMove::new(Move { index: 0, flags: 0 }, 0)
    }
}

/// The score of a move in a game. A capture scores one point for every seed
/// in its source pit, and two more if it takes the opponent's house while
/// the mover's own house is intact; any other move scores nothing.
pub open spec fn move_score(game: GameView, m: Move) -> int {
    if m.is_capture() {
        game.current.pits[m.index as int] + (if 7 - m.index == 4 && game.current.nyumba {
            2int
        } else {
            0int
        })
    } else {
        0
    }
}

/// The moves, each with its score in the game.
pub open spec fn scored(game: GameView, moves: Seq<Move>) -> Seq<ScoredMove> {
    Seq::new(moves.len(), |i: int| ScoredMove { m: moves[i], score: move_score(game, moves[i]) as i16 })
}

/// A sorted list with one more move, put behind every move that scores at
/// least as much.
pub open spec fn inserted_by_score(sorted: Seq<ScoredMove>, x: ScoredMove) -> Seq<ScoredMove>
    decreases sorted.len(),
{
    if sorted.len() == 0 || sorted.last().score >= x.score {
        sorted.push(x)
    } else {
        inserted_by_score(sorted.drop_last(), x).push(sorted.last())
    }
}

/// The moves sorted by falling score; moves of one score keep their order.
pub open spec fn sorted_by_score(moves: Seq<ScoredMove>) -> Seq<ScoredMove>
    decreases moves.len(),
{
    if moves.len() == 0 {
        moves
    } else {
        inserted_by_score(sorted_by_score(moves.drop_last()), moves.last())
    }
}

/// Every score is at least as high as the scores behind it.
pub open spec fn falling(moves: Seq<ScoredMove>) -> bool {
    forall|i: int, j: int|
        0 <= i < j < moves.len() ==> (#[trigger] moves[i]).score >= (#[trigger] moves[j]).score
}

/// Where the new move of [`inserted_by_score`] goes: `at` is its place if
/// every move from `at` on scores less and the move before `at` does not.
pub proof fn lemma_inserted_at(sorted: Seq<ScoredMove>, x: ScoredMove, at: int)
    requires
        0 <= at <= sorted.len(),
        forall|k: int| at <= k < sorted.len() ==> (#[trigger] sorted[k]).score < x.score,
        at > 0 ==> sorted[at - 1].score >= x.score,
    ensures
        inserted_by_score(sorted, x) == sorted.insert(at, x),
    decreases sorted.len() - at,
{
    if at < sorted.len() {
        let front = sorted.drop_last();
        assert forall|k: int| at <= k < front.len() implies (#[trigger] front[k]).score
            < x.score by {}
        lemma_inserted_at(front, x, at);
    }
}

/// Inserting keeps the list sorted and adds the new move to what it holds.
pub proof fn lemma_inserted_falling(sorted: Seq<ScoredMove>, x: ScoredMove)
    requires
        falling(sorted),
    ensures
        falling(inserted_by_score(sorted, x)),
        inserted_by_score(sorted, x).to_multiset() == sorted.to_multiset().insert(x),
        inserted_by_score(sorted, x).len() == sorted.len() + 1,
    decreases sorted.len(),
{
    broadcast use vstd::seq_lib::group_to_multiset_ensures;

    if sorted.len() == 0 || sorted.last().score >= x.score {
        let next = sorted.push(x);
        assert forall|i: int, j: int| 0 <= i < j < next.len() implies (#[trigger] next[i]).score
            >= (#[trigger] next[j]).score by {}
    } else {
        let front = sorted.drop_last();
        assert forall|i: int, j: int| 0 <= i < j < front.len() implies (#[trigger] front[i]).score
            >= (#[trigger] front[j]).score by {}
        lemma_inserted_falling(front, x);
        let mid = inserted_by_score(front, x);
        let next = mid.push(sorted.last());
        assert forall|i: int, j: int| 0 <= i < j < next.len() implies (#[trigger] next[i]).score
            >= (#[trigger] next[j]).score by {
            if j == mid.len() {
                assert(mid.to_multiset().contains(mid[i]));
                if mid[i] == x {
                } else {
                    let k = choose|k: int| 0 <= k < front.len() && front[k] == mid[i];
                }
            }
        }
        assert(sorted =~= front.push(sorted.last()));
    }
}

/// Sorting gives a list of falling scores that holds the moves that were
/// sorted, each as often as before.
pub proof fn lemma_sorted_by_score(moves: Seq<ScoredMove>)
    ensures
        falling(sorted_by_score(moves)),
        sorted_by_score(moves).to_multiset() == moves.to_multiset(),
        sorted_by_score(moves).len() == moves.len(),
    decreases moves.len(),
{
    broadcast use vstd::seq_lib::group_to_multiset_ensures;

    if moves.len() > 0 {
        lemma_sorted_by_score(moves.drop_last());
        lemma_inserted_falling(sorted_by_score(moves.drop_last()), moves.last());
        assert(moves =~= moves.drop_last().push(moves.last()));
    }
}

/// The number of moves in front of the first move that is `hint`; the
/// number of all moves if none is.
pub open spec fn place_of(moves: Seq<ScoredMove>, hint: Move) -> int
    decreases moves.len(),
{
    if moves.len() == 0 || moves[0].m == hint {
        0
    } else {
        1 + place_of(moves.drop_first(), hint)
    }
}

/// [`place_of`] finds the first place of the hinted move: no move in front
/// of it is the hint, and the move at the place is, if there is one.
pub proof fn lemma_place_of(moves: Seq<ScoredMove>, hint: Move)
    ensures
        0 <= place_of(moves, hint) <= moves.len(),
        forall|k: int| 0 <= k < place_of(moves, hint) ==> (#[trigger] moves[k]).m != hint,
        place_of(moves, hint) < moves.len() ==> moves[place_of(moves, hint)].m == hint,
    decreases moves.len(),
{
    if moves.len() > 0 && moves[0].m != hint {
        let rest = moves.drop_first();
        lemma_place_of(rest, hint);
        assert forall|k: int| 0 <= k < place_of(moves, hint) implies (#[trigger] moves[k]).m
            != hint by {
            if k > 0 {
                assert(moves[k] == rest[k - 1]);
            }
        }
    }
}

/// The moves with the hinted move brought to the front; the moves that were
/// in front of it move one place back. Nothing changes if there is no hint
/// or the hinted move is not among the moves.
pub open spec fn promoted(moves: Seq<ScoredMove>, hint: Option<Move>) -> Seq<ScoredMove> {
    match hint {
        None => moves,
        Some(m) => {
            let at = place_of(moves, m);
            if at < moves.len() {
                seq![moves[at]] + moves.remove(at)
            } else {
                moves
            }
        },
    }
}

/// The moves that the search looks at, in its order: the legal moves, sorted
/// by falling score, with the hinted move in front.
pub open spec fn picked(game: GameView, hint: Option<Move>) -> Seq<ScoredMove> {
    promoted(sorted_by_score(scored(game, game.legal_moves())), hint)
}

/// Orders the legal moves of a position.
pub struct MovePicker {
    moves: [ScoredMove; 32],  // Move and value
    num_moves: usize,
}

impl Default for MovePicker {
    /// A picker that holds no moves.
    fn default() -> (picker: MovePicker)
        ensures
            picker.listed().len() == 0,
    {
        MovePicker::new()
    }
}

impl MovePicker {
    /// The moves that the picker holds.
    pub closed spec fn listed(&self) -> Seq<ScoredMove> {
        self.moves@.subrange(0, self.num_moves as int)
    }

    /// A picker that holds no moves.
    pub fn new() -> (picker: Self)
        ensures
            picker.listed().len() == 0,
    {
        MovePicker { moves: [ScoredMove { m: Move { index: 0, flags: 0 }, score: 0 }; 32], num_moves: 0 }
    }

    /// The legal moves of `game` in the order in which the search looks at
    /// them (see [`picked`]); `tt_move` is the move to look at first.
    pub fn pick_moves(&mut self, game: &Game, tt_move: Option<Move>) -> (moves: &[ScoredMove])
        ensures
            moves@ == picked(game@, tt_move),
    {
        // Generate legal moves.
        let mut move_factory = MoveFactory::new(game);
        let legal_moves = move_factory.get_legal_moves();
        proof {
            crate::bao::move_factory::lemma_legal_moves_len(game@);
        }
        self.num_moves = legal_moves.len();
        let mut i: usize = 0;
        while i < legal_moves.len()
            invariant
                i <= legal_moves@.len() <= 32,
                self.num_moves == legal_moves@.len(),
                legal_moves@ == game@.legal_moves(),
                forall|k: int| 0 <= k < i ==> #[trigger] self.moves@[k].m == legal_moves@[k],
            decreases legal_moves@.len() - i,
        {
            self.moves[i].m = legal_moves[i];
            i += 1;
        }
        // Sort by value.

        self.score(game);
        self.sort();

        // Search tt move first.
        self.insert_tt_move(tt_move);

        let all = self.moves.as_slice();
        vstd::slice::slice_subrange(all, 0, self.num_moves)
    }

    /// Brings the hinted move to the front (see [`promoted`]).
    fn insert_tt_move(&mut self, tt_move: Option<Move>)
        requires
            old(self).num_moves <= 32,
        ensures
            final(self).listed() == promoted(old(self).listed(), tt_move),
            final(self).num_moves == old(self).num_moves,
    {
        if let Some(hint) = tt_move {
            let ghost before = self.listed();
            let mut i: usize = 0;
            assert(before.subrange(0, before.len() as int) =~= before);
            while i < self.num_moves
                invariant
                    i <= self.num_moves <= 32,
                    *self == *old(self),
                    before == self.listed(),
                    tt_move == Some(hint),
                    place_of(before, hint) == i + place_of(
                        before.subrange(i as int, before.len() as int),
                        hint,
                    ),
                decreases self.num_moves - i,
            {
                if self.moves[i].m == hint {
                    self.rotate_to_front(i);
                    return ;
                }
                assert(before.subrange(i as int, before.len() as int).drop_first()
                    =~= before.subrange(i + 1, before.len() as int));
                i += 1;
            }
        }
    }

    /// Moves the move at place `at` to the front and the moves before it one
    /// place back.
    fn rotate_to_front(&mut self, at: usize)
        requires
            at < old(self).num_moves <= 32,
        ensures
            final(self).listed() == seq![old(self).listed()[at as int]] + old(self).listed().remove(
                at as int,
            ),
            final(self).num_moves == old(self).num_moves,
    {
        let ghost before = self.moves@;
        let hinted = self.moves[at];
        let mut k: usize = at;
        while k > 0
            invariant
                k <= at < self.num_moves <= 32,
                self.num_moves == old(self).num_moves,
                before == old(self).moves@,
                forall|j: int| 0 <= j < k ==> self.moves@[j] == before[j],
                forall|j: int| k < j <= at ==> self.moves@[j] == before[j - 1],
                forall|j: int| at < j < 32 ==> self.moves@[j] == before[j],
            decreases k,
        {
            self.moves[k] = self.moves[k - 1];
            k -= 1;
        }
        self.moves[0] = hinted;
    }

    /// Gives every move its score in `game` (see [`move_score`]).
    fn score(&mut self, game: &Game)
        requires
            old(self).num_moves == game@.legal_moves().len(),
            game@.legal_moves().len() <= 32,
            forall|k: int|
                0 <= k < old(self).num_moves ==> #[trigger] old(self).moves@[k].m
                    == game@.legal_moves()[k],
        ensures
            final(self).listed() == scored(game@, game@.legal_moves()),
            final(self).num_moves == old(self).num_moves,
    {
        let ghost legal = game@.legal_moves();
        let mut i: usize = 0;
        while i < self.num_moves
            invariant
                i <= self.num_moves <= 32,
                self.num_moves == old(self).num_moves,
                legal == game@.legal_moves(),
                self.num_moves == legal.len(),
                forall|k: int| i <= k < self.num_moves ==> #[trigger] self.moves@[k].m == legal[k],
                forall|k: int| 0 <= k < i ==> #[trigger] self.moves@[k] == scored(game@, legal)[k],
            decreases self.num_moves - i,
        {
            let m = self.moves[i].m;
            proof {
                game@.lemma_legal_move_shape(m);
            }
            let mut score: i16 = 0;
            if m.is_capture() {
                let capture_index = 7 - m.index;
                // Bonus for capturing from a well-stocked pit
                score += game.current_player.mashumo.get_seeds(m.index) as i16;
                // Bonus for taking the opponent's nyumba
                score += if capture_index == HOUSE && game.current_player.nyumba {
                    2
                } else {
                    0
                };
            }
            self.moves[i] = ScoredMove { m, score };
            i += 1;
        }
    }

    /// Sorts the moves by falling score (see [`sorted_by_score`]).
    fn sort(&mut self)
        requires
            old(self).num_moves <= 32,
        ensures
            final(self).listed() == sorted_by_score(old(self).listed()),
            final(self).num_moves == old(self).num_moves,
    {
        let ghost start = self.moves@;
        let mut i: usize = 0;
        while i < self.num_moves
            invariant
                i <= self.num_moves <= 32,
                self.num_moves == old(self).num_moves,
                start == old(self).moves@,
                self.moves@.subrange(0, i as int) == sorted_by_score(start.subrange(0, i as int)),
                forall|k: int| i <= k < 32 ==> self.moves@[k] == start[k],
            decreases self.num_moves - i,
        {
            let x = self.moves[i];
            let ghost sorted = self.moves@.subrange(0, i as int);
            proof {
                assert(start.subrange(0, i + 1).drop_last() =~= start.subrange(0, i as int));
            }
            let mut j: usize = i;
            while j > 0 && self.moves[j - 1].score < x.score
                invariant
                    j <= i < self.num_moves <= 32,
                    self.num_moves == old(self).num_moves,
                    sorted.len() == i,
                    forall|k: int| 0 <= k < j ==> self.moves@[k] == sorted[k],
                    forall|k: int| j < k <= i ==> self.moves@[k] == sorted[k - 1],
                    forall|k: int| j <= k < i ==> (#[trigger] sorted[k]).score < x.score,
                    forall|k: int| i < k < 32 ==> self.moves@[k] == start[k],
                decreases j,
            {
                self.moves[j] = self.moves[j - 1];
                j -= 1;
            }
            self.moves[j] = x;
            proof {
                lemma_inserted_at(sorted, x, j as int);
            }
            i += 1;
        }
    }
}

} // verus!
