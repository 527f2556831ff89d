//! Static evaluation of a position.
use vstd::prelude::*;
use crate::bao::game::GameView;
use crate::bao::player::pit_sum;
use crate::search::move_picker::ScoredMove;
use crate::search::node::Node;

verus! {

/// The score of a position in which the player to move has won. Scores are
/// whole numbers; this one is above every score that a position can be
/// given by counting seeds.
pub const INFINITY: i32 = 2147483647;

/// The score of a position in which the player to move has lost.
pub const NEG_INFINITY: i32 = -2147483647;

/// The weight of a seed in pit `index`. Every pit weighs the same for now.
pub open spec fn pit_weight(index: int) -> int {
    1
}

/// Computes [`pit_weight`].
pub fn weight(index: usize) -> (w: i32)
    ensures
        w == pit_weight(index as int),
{
    1
}

/// The weighted number of seeds in the first `n` pits.
pub open spec fn weighted_sum(pits: Seq<u8>, n: nat) -> int
    decreases n,
{
    if n == 0 {
        0
    } else {
        weighted_sum(pits, (n - 1) as nat) + pit_weight(n - 1) * pits[n - 1]
    }
}

/// The material balance of a game: the weighted seeds of the player to move
/// less those of the opponent.
pub open spec fn material(game: GameView) -> int {
    weighted_sum(game.current.pits, 16) - weighted_sum(game.other.pits, 16)
}

/// With every pit weighing one, the material balance is the number of seeds
/// on the mover's board less the number on the opponent's; the mover's
/// balance is the opposite of the opponent's.
pub proof fn lemma_material(game: GameView)
    ensures
        material(game) == pit_sum(game.current.pits) - pit_sum(game.other.pits),
        material(game.swapped()) == -material(game),
        -4080 <= material(game) <= 4080,
{
    reveal_with_fuel(weighted_sum, 17);
}

/// The score of a position for the player to move: the material balance of
/// the game. The legal moves play no part in it.
pub fn evaluate(node: Node, _legal_moves: &[ScoredMove]) -> (score: i32)
    ensures
        score == material(node.game@),
        NEG_INFINITY < score < INFINITY,
{
    let mut score: i32 = 0;

    // Material evaluation
    let mut i: usize = 0;
    while i < 16
        invariant
            i <= 16,
            score == weighted_sum(node.game@.current.pits, i as nat) - weighted_sum(
                node.game@.other.pits,
                i as nat,
            ),
            -255 * i <= score <= 255 * i,
        decreases 16 - i,
    {
        score += weight(i) * node.game.current_player.mashumo.mashumo[i] as i32;
        score -= weight(i) * node.game.other_player.mashumo.mashumo[i] as i32;
        i += 1;
    }

    score
}

} // verus!
