//! Iterative deepening negamax search with alpha-beta pruning.
use vstd::prelude::*;
use std::sync::mpsc::Sender;
use crate::bao::board::ZobristKeys;
use crate::bao::game::{Game, GameView};
use crate::bao::moves::Move;
use crate::bao::pv::{PVLine, PVLineView};
use crate::error::{SearchError, SearchResult};
use crate::search::evaluate::{evaluate, material, INFINITY, NEG_INFINITY};
use crate::search::move_picker::{picked, MovePicker, ScoredMove};
use crate::search::node::Node;
use crate::search::timer::Timer;
use crate::search::transposition_table::{
    followed, held, pv_line, stored, Cache, EntryType, TranspositionTableEntry,
};
use crate::search::zobrist::position_hash;

verus! {

/// `std::sync::mpsc::Sender`, the sending half of a channel.
#[verifier::external_type_specification]
#[verifier::external_body]
#[verifier::reject_recursive_types(T)]
pub struct ExSender<T>(Sender<T>);

/// Sends a line over the channel (`Sender::send`). The send fails if the
/// receiving half is gone; the line then comes back.
#[verifier::external_body]
fn send_line(sender: &Sender<PVLine>, line: PVLine) -> (sent: Result<(), PVLine>)
    ensures
        sent matches Err(back) ==> back == line,
{
    sender.send(line).map_err(|error| error.0)
}

/// A score as the opponent sees it. The two ends of the range are each
/// other's opposite.
pub open spec fn opposite(score: i32) -> i32 {
    if score == i32::MIN {
        i32::MAX
    } else {
        (-score) as i32
    }
}

/// Computes [`opposite`].
pub fn negated(score: i32) -> (negated: i32)
    ensures
        negated == opposite(score),
{
    if score == i32::MIN {
        i32::MAX
    } else {
        -score
    }
}

/// What the search does after it has looked a position up in the table.
#[derive(Clone, Copy, Debug, PartialEq, Eq, Structural)]
pub enum Probed {
    /// The table settles the position: the search returns this score.
    Cutoff(i32),
    /// The position is searched between `alpha` and `beta`, the move `hint`
    /// first.
    Search { alpha: i32, beta: i32, hint: Option<Move> },
}

/// What the search makes of the entry that the table holds for a position
/// which it is to search `depth` deep between `alpha` and `beta`. An entry
/// that was searched at least as deep is used: an exact score settles the
/// position; a lower bound raises `alpha` and an upper bound lowers `beta`,
/// and the position is settled if they meet. Any entry gives its move as
/// the one to search first.
pub open spec fn consulted(
    entry: Option<TranspositionTableEntry>,
    depth: u8,
    alpha: i32,
    beta: i32,
) -> Probed {
    match entry {
        None => Probed::Search { alpha, beta, hint: None },
        Some(found) => {
            if found.depth < depth {
                Probed::Search { alpha, beta, hint: Some(found.best_move) }
            } else {
                match found.entry_type {
                    EntryType::Exact => Probed::Cutoff(found.score),
                    EntryType::LowerBound => {
                        let raised = if alpha < found.score {
                            found.score
                        } else {
                            alpha
                        };
                        if raised >= beta {
                            Probed::Cutoff(found.score)
                        } else {
                            Probed::Search { alpha: raised, beta, hint: Some(found.best_move) }
                        }
                    },
                    EntryType::UpperBound => {
                        let lowered = if beta > found.score {
                            found.score
                        } else {
                            beta
                        };
                        if alpha >= lowered {
                            Probed::Cutoff(found.score)
                        } else {
                            Probed::Search { alpha, beta: lowered, hint: Some(found.best_move) }
                        }
                    },
                }
            }
        },
    }
}

/// Decides what to do after a look-up in the table (see [`consulted`]).
pub fn consult(entry: Option<TranspositionTableEntry>, depth: u8, alpha: i32, beta: i32) -> (probed:
    Probed)
    ensures
        probed == consulted(entry, depth, alpha, beta),
{
    let mut alpha = alpha;
    let mut beta = beta;
    let mut tt_move = None;
    if let Some(entry) = entry {
        // Use tt entry if it's valid.
        if entry.depth >= depth {
            match entry.entry_type {
                EntryType::Exact => {
                    return Probed::Cutoff(entry.score);
                },
                EntryType::LowerBound => {
                    if alpha < entry.score {
                        alpha = entry.score;
                    }
                },
                EntryType::UpperBound => {
                    if beta > entry.score {
                        beta = entry.score;
                    }
                },
            }
            if alpha >= beta {
                return Probed::Cutoff(entry.score);
            }
        }
        // Search tt move first.

        tt_move = Some(entry.best_move);
    }
    Probed::Search { alpha, beta, hint: tt_move }
}

/// The score of a position at which the search ends, whatever the depth:
/// the player to move has lost if there is no legal move or the mover's
/// front row is empty, and has won if the opponent's front row is empty.
pub open spec fn terminal(game: GameView, num_moves: int) -> Option<i32> {
    if num_moves == 0 || game.current.front_empty() {
        Some(NEG_INFINITY)
    } else if game.other.front_empty() {
        Some(INFINITY)
    } else {
        None
    }
}

/// A position whose opponent has no seed left in the front row is won for
/// the player to move, who has just moved, as long as that player has a
/// legal move and a seed in front.
pub proof fn lemma_won_position(game: GameView, num_moves: int)
    requires
        game.is_won(),
        num_moves != 0,
        !game.current.front_empty(),
    ensures
        terminal(game, num_moves) == Some(INFINITY),
{
}

/// Finds whether the search ends at a position (see [`terminal`]).
pub fn terminal_score(game: &Game, num_moves: usize) -> (score: Option<i32>)
    requires
        game.wf(),
    ensures
        score == terminal(game@, num_moves as int),
{
    proof {
        game.current_player.mashumo.lemma_empty_mask_is_empty_front();
        game.other_player.mashumo.lemma_empty_mask_is_empty_front();
        assert(game@.current.pits == game.current_player.mashumo@);
        assert(game@.other.pits == game.other_player.mashumo@);
    }
    if num_moves == 0 || game.current_player.mashumo.bitboard == 0 {
        Some(NEG_INFINITY)
    } else if game.other_player.mashumo.bitboard == 0 {
        Some(INFINITY)
    } else {
        None
    }
}

/// The best that the search has found at a position so far.
#[derive(Clone, Copy, Debug, PartialEq, Eq, Structural)]
pub struct Best {
    /// The highest score of a move so far.
    pub value: i32,
    /// The score that a move has to beat.
    pub alpha: i32,
    /// The last move that beat `alpha`.
    pub best_move: Option<Move>,
}

/// The best after move `m` was searched and the position after it got the
/// score `child_value` for the opponent: the move's score is the opposite;
/// a score above `alpha` raises `alpha` and makes the move the best one.
pub open spec fn improved(best: Best, m: Move, child_value: i32) -> Best {
    let score = opposite(child_value);
    let value = if best.value < score {
        score
    } else {
        best.value
    };
    if value > best.alpha {
        Best { value, alpha: value, best_move: Some(m) }
    } else {
        Best { value, alpha: best.alpha, best_move: best.best_move }
    }
}

/// Takes the score of one more move into account (see [`improved`]).
pub fn improve(best: Best, m: Move, child_value: i32) -> (next: Best)
    ensures
        next == improved(best, m, child_value),
{
    let score = negated(child_value);
    let value = if best.value < score {
        score
    } else {
        best.value
    };
    if value > best.alpha {
        Best { value, alpha: value, best_move: Some(m) }
    } else {
        Best { value, alpha: best.alpha, best_move: best.best_move }
    }
}

/// What the score of a searched position says of its true score: the
/// score is an upper bound if it did not beat the `alpha` that the search
/// started with, a lower bound if it reached `beta`, and exact otherwise.
pub open spec fn bound_of(value: i32, orig_alpha: i32, beta: i32) -> EntryType {
    if value <= orig_alpha {
        EntryType::UpperBound
    } else if value >= beta {
        EntryType::LowerBound
    } else {
        EntryType::Exact
    }
}

/// Classifies the score of a searched position (see [`bound_of`]).
pub fn classify(value: i32, orig_alpha: i32, beta: i32) -> (kind: EntryType)
    ensures
        kind == bound_of(value, orig_alpha, beta),
{
    let mut tt_flag: EntryType = EntryType::Exact;
    if value <= orig_alpha {
        tt_flag = EntryType::UpperBound;
    } else if value >= beta {
        tt_flag = EntryType::LowerBound;
    }
    tt_flag
}

/// What a search leaves behind: the score of the position and the entries
/// of the cache after the search.
pub struct Searched {
    pub value: i32,
    pub entries: Map<u64, TranspositionTableEntry>,
}

/// The score of a position that is searched `depth` half-moves deep
/// between `alpha` and `beta` with a cache that holds `entries`, and what
/// the cache holds afterwards, as long as the time is not up. The steps,
/// in this order: the cache is consulted (see [`consulted`]); the search
/// ends at a terminal position (see [`terminal`]) and, with no depth left,
/// at the static evaluation; else the moves are searched in the order of
/// the move picker (see [`searched_moves`]), and the score goes into the
/// cache with the best move, if a move beat `alpha` (see [`bound_of`]).
pub open spec fn searched(
    keys: Seq<u64>,
    game: GameView,
    depth: u8,
    alpha: i32,
    beta: i32,
    entries: Map<u64, TranspositionTableEntry>,
) -> Searched
    decreases depth, 1nat, 0nat,
{
    let key = position_hash(keys, game);
    match consulted(held(entries, key), depth, alpha, beta) {
        Probed::Cutoff(score) => Searched { value: score, entries },
        Probed::Search { alpha: low, beta: high, hint } => {
            let moves = picked(game, hint);
            match terminal(game, moves.len() as int) {
                Some(score) => Searched { value: score, entries },
                None => if depth == 0 {
                    Searched { value: material(game) as i32, entries }
                } else {
                    let start = Best { value: NEG_INFINITY, alpha: low, best_move: None };
                    let (best, after) = searched_moves(
                        keys,
                        game,
                        depth,
                        high,
                        moves,
                        0,
                        start,
                        entries,
                    );
                    Searched {
                        value: best.value,
                        entries: match best.best_move {
                            Some(best_move) => stored(
                                after,
                                key,
                                TranspositionTableEntry {
                                    depth,
                                    score: best.value,
                                    best_move,
                                    entry_type: bound_of(best.value, alpha, high),
                                },
                            ),
                            None => after,
                        },
                    }
                },
            }
        },
    }
}

/// The best of a position after its moves from place `from` on were
/// searched, and what the cache holds then. Each move is searched one level
/// less deep with the window turned round (see [`improved`]); the search of
/// the moves ends when `alpha` reaches `beta`. A move that the game cannot
/// play is passed over.
pub open spec fn searched_moves(
    keys: Seq<u64>,
    game: GameView,
    depth: u8,
    beta: i32,
    moves: Seq<ScoredMove>,
    from: nat,
    best: Best,
    entries: Map<u64, TranspositionTableEntry>,
) -> (Best, Map<u64, TranspositionTableEntry>)
    decreases depth, 0nat, moves.len() - from,
{
    if from >= moves.len() || depth == 0 {
        (best, entries)
    } else {
        let m = moves[from as int].m;
        if !game.accepts(m) {
            searched_moves(keys, game, depth, beta, moves, from + 1, best, entries)
        } else {
            let child = searched(
                keys,
                game.after_turn(m),
                (depth - 1) as u8,
                opposite(beta),
                opposite(best.alpha),
                entries,
            );
            let next = improved(best, m, child.value);
            if next.alpha >= beta {
                (next, child.entries)
            } else {
                searched_moves(keys, game, depth, beta, moves, from + 1, next, child.entries)
            }
        }
    }
}

/// Negamax search with alpha-beta pruning.
///
/// Returns the score of `node` for the player to move, searched `depth`
/// half-moves deep between `alpha` and `beta`. If the time is up, the score
/// is zero and nothing else happens. Otherwise the search goes as
/// [`searched`] describes: with a cache of the searcher's own, a node that
/// is hashed with `keys`, and a timer that is not up at the end, the score
/// and the entries of the cache are the ones described there. With a cache
/// that other threads share, or when the time runs out under way, the
/// score depends on what the cache held and on when the clock was read.
pub fn negamax<C: Cache>(
    node: Node,
    depth: u8,
    alpha: i32,
    beta: i32,
    timer: &mut Timer,
    tt: &mut C,
    keys: &ZobristKeys,
) -> (value: i32)
    requires
        node.game.wf(),
    ensures
        old(timer)@.latched ==> value == 0 && final(timer)@ == old(timer)@ && final(tt).entries()
            == old(tt).entries(),
        final(timer)@.budget == old(timer)@.budget,
        final(tt).entries() is Some <==> old(tt).entries() is Some,
        old(tt).entries() matches Some(own) ==> (node.hashed(keys) && !final(timer)@.latched ==> {
            let found = searched(keys.keys@, node.game@, depth, alpha, beta, own);
            value == found.value && final(tt).entries() == Some(found.entries)
        }),
    decreases depth,
{
    // Time's up, return immediately. Returning 0 does not affect the result.
    if timer.is_time_up() {
        return 0;
    }
    let orig_alpha = alpha;

    // Probe tt
    let entry = tt.lookup(node.zobrist);
    let (alpha, beta, tt_move) = match consult(entry, depth, alpha, beta) {
        Probed::Cutoff(score) => {
            return score;
        },
        Probed::Search { alpha, beta, hint } => (alpha, beta, hint),
    };

    // Generate possible moves.
    let mut picker = MovePicker::new();
    let legal_moves = picker.pick_moves(&node.game, tt_move);

    // Terminal node or max depth, evaluate and return.
    if let Some(score) = terminal_score(&node.game, legal_moves.len()) {
        return score;
    } else if depth == 0 {
        return evaluate(node, legal_moves);
    }
    // Recursive search

    let ghost start = Best { value: NEG_INFINITY, alpha, best_move: None };
    let mut best = Best { value: NEG_INFINITY, alpha, best_move: None };
    let mut i: usize = 0;
    let mut cut = false;
    while i < legal_moves.len() && !cut
        invariant
            i <= legal_moves@.len(),
            node.game.wf(),
            depth > 0,
            timer@.budget == old(timer)@.budget,
            tt.entries() is Some <==> old(tt).entries() is Some,
            old(tt).entries() matches Some(own) ==> (node.hashed(keys) && !timer@.latched
                ==> searched_moves(
                keys.keys@,
                node.game@,
                depth,
                beta,
                legal_moves@,
                0,
                start,
                own,
            ) == (if cut {
                (best, tt.entries()->Some_0)
            } else {
                searched_moves(
                    keys.keys@,
                    node.game@,
                    depth,
                    beta,
                    legal_moves@,
                    i as nat,
                    best,
                    tt.entries()->Some_0,
                )
            })),
        decreases legal_moves@.len() - i + (if cut { 0int } else { 1int }),
    {
        let m = legal_moves[i].m;
        if node.game.accepts(&m) {
            let child = node.apply_move(keys, &m);
            let child_value = negamax(
                child,
                depth - 1,
                negated(beta),
                negated(best.alpha),
                timer,
                tt,
                keys,
            );
            best = improve(best, m, child_value);

            if best.alpha >= beta {
                cut = true;  // Beta cut-off
            }
        }
        i += 1;
    }

    // Update tt.
    let tt_flag = classify(best.value, orig_alpha, beta);
    if let Some(best_move) = best.best_move {
        tt.offer(node.zobrist, &best_move, depth, best.value, tt_flag);
    }
    best.value
}

/// What the cache holds after a position was searched one half-move deep,
/// then two, and so on up to `depth`, starting with a cache that held
/// `entries`.
pub open spec fn deepened(
    keys: Seq<u64>,
    game: GameView,
    depth: u8,
    entries: Map<u64, TranspositionTableEntry>,
) -> Map<u64, TranspositionTableEntry>
    decreases depth,
{
    if depth == 0 {
        entries
    } else {
        searched(
            keys,
            game,
            depth,
            NEG_INFINITY,
            INFINITY,
            deepened(keys, game, (depth - 1) as u8, entries),
        ).entries
    }
}

/// The line that the cache holds from `game` on after the position was
/// searched up to `depth` half-moves deep, starting with a cache that held
/// `entries`.
pub open spec fn line_at_depth(
    keys: Seq<u64>,
    game: GameView,
    depth: u8,
    entries: Map<u64, TranspositionTableEntry>,
) -> PVLineView {
    followed(
        deepened(keys, game, depth, entries),
        keys,
        game,
        depth as nat,
        PVLineView { moves: Seq::empty(), value: 0 },
    )
}

/// Iterative deepening negamax search.
///
/// Searches `node` one half-move deep, then two, and so on up to
/// `max_depth`. After each depth the line that the cache holds from `node`
/// is sent over the channel. The search stops, without a line for the depth
/// that was under way, when the time is up, and with the error that holds
/// the line when nobody listens to the channel any more. With a cache of
/// the searcher's own and a node hashed with `keys`, the cache holds in the
/// end what [`deepened`] describes, unless the search was stopped, and a
/// line that could not be sent is the line of its depth (see
/// [`line_at_depth`]).
pub fn iterative_deepening<C: Cache>(
    max_depth: u8,
    node: Node,
    sender: Sender<PVLine>,
    timer: &mut Timer,
    tt: &mut C,
    keys: &ZobristKeys,
) -> (done: SearchResult<()>)
    requires
        node.game.wf(),
    ensures
        final(timer)@.budget == old(timer)@.budget,
        final(tt).entries() is Some <==> old(tt).entries() is Some,
        done matches Err(SearchError::SendPVLineError(line)) ==> line@.moves.len() <= max_depth
            && !final(timer)@.latched,
        old(tt).entries() matches Some(own) ==> (node.hashed(keys) && !final(timer)@.latched
            ==> match done {
            Ok(_) => final(tt).entries() == Some(deepened(keys.keys@, node.game@, max_depth, own)),
            Err(SearchError::SendPVLineError(line)) => exists|depth: u8|
                1 <= depth <= max_depth && line@ == #[trigger] line_at_depth(
                    keys.keys@,
                    node.game@,
                    depth,
                    own,
                ),
        }),
{
    let mut depth: u8 = 0;
    while depth < max_depth
        invariant
            depth <= max_depth,
            node.game.wf(),
            timer@.budget == old(timer)@.budget,
            tt.entries() is Some <==> old(tt).entries() is Some,
            old(tt).entries() matches Some(own) ==> (node.hashed(keys) && !timer@.latched
                ==> tt.entries() == Some(deepened(keys.keys@, node.game@, depth, own))),
        decreases max_depth - depth,
    {
        depth += 1;
        negamax(node, depth, NEG_INFINITY, INFINITY, timer, tt, keys);
        if timer.is_time_up() {
            return Ok(());  // We can't guarantee the tree is fully searched.
        }
        let pvline = pv_line(tt, keys, &node, depth);
        match send_line(&sender, pvline) {
            Ok(()) => {},
            Err(line) => {
                proof {
                    if let Some(own) = old(tt).entries() {
                        if node.hashed(keys) {
                            assert(line@ == line_at_depth(keys.keys@, node.game@, depth, own));
                        }
                    }
                }
                return Err(SearchError::SendPVLineError(line));
            },
        }
    }
    Ok(())
}

} // verus!
