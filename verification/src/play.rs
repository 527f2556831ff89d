//! The decisions of a game against the computer. Reading the player's
//! input, showing the board and running the search are left to the caller.
use vstd::prelude::*;
use vstd::string::StringSliceAdditionalSpecFns;
use crate::bao::board::ZobristKeys;
use crate::bao::game::{Game, GameView};
use crate::bao::move_factory::MoveFactory;
use crate::bao::moves::{contains_move, Move};
use crate::bao::pv::PVLine;

verus! {

/// What one line of the player's input leads to.
#[derive(Clone, Copy, Debug)]
pub enum PlayerTurn {
    /// The player has no legal move: the game is over.
    GameOver,
    /// The input is not a move that can be played: the player is asked
    /// again.
    Retry,
    /// The move was played; holds the game after the turn.
    Played(Game),
}

impl GameView {
    /// The move that the player's input `text` stands for, if the input is
    /// a legal move that the game can play.
    pub open spec fn chosen_move(self, text: Seq<u8>) -> Option<Move> {
        match self.parse_text(text) {
            Ok(m) if self.legal_moves().contains(m) && self.accepts(m) => Some(m),
            _ => None,
        }
    }
}

/// The player's turn, given one line of input. The game is over if the
/// player has no legal move. The player is asked again if the input is
/// not the text of a move, or the move is not legal, or the game cannot
/// play it. Otherwise the turn that starts with the move is played.
pub fn player_turn(game: &Game, keys: &ZobristKeys, input: &str) -> (turn: PlayerTurn)
    requires
        game.wf(),
    ensures
        match turn {
            PlayerTurn::GameOver => game@.legal_moves().len() == 0,
            PlayerTurn::Retry => game@.legal_moves().len() > 0 && game@.chosen_move(
                input.spec_bytes(),
            ) is None,
            PlayerTurn::Played(next) => {
                &&& game@.legal_moves().len() > 0
                &&& game@.chosen_move(input.spec_bytes()) matches Some(m) && next@
                    == game@.after_turn(m)
                &&& next.wf()
                &&& game.hashed(keys) ==> next.hashed(keys)
            },
        },
{
    // Get all legal moves.
    let mut factory = MoveFactory::new(game);
    let legal_moves = factory.get_legal_moves();
    if legal_moves.len() == 0 {
        return PlayerTurn::GameOver;  // Game over.
    }
    // Parse move.

    let parser = MoveFactory::new(game);
    let m = match parser.parse_move(input) {
        Ok(m) => m,
        _ => {
            return PlayerTurn::Retry;
        },
    };
    // Check if move is legal.
    if !contains_move(legal_moves, m) || !game.accepts(&m) {
        return PlayerTurn::Retry;
    }
    let mut game_after_move = *game;
    game_after_move.take_turn(keys, &m);
    PlayerTurn::Played(game_after_move)
}

/// The computer's turn, given the line that the search has found: the first
/// move of the line is played if it is a legal move that the game can play.
/// There is no game to go on with otherwise.
pub fn computer_turn(game: &Game, keys: &ZobristKeys, pvline: &PVLine) -> (next: Option<Game>)
    requires
        game.wf(),
    ensures
        match next {
            Some(next_game) => {
                &&& pvline@.moves.len() > 0
                &&& game@.legal_moves().contains(pvline@.moves[0])
                &&& game@.accepts(pvline@.moves[0])
                &&& next_game@ == game@.after_turn(pvline@.moves[0])
                &&& next_game.wf()
                &&& game.hashed(keys) ==> next_game.hashed(keys)
            },
            None => pvline@.moves.len() == 0 || !game@.legal_moves().contains(pvline@.moves[0])
                || !game@.accepts(pvline@.moves[0]),
        },
{
    if pvline.moves.len() == 0 {
        return None;
    }
    // Play the move and return the next state.

    let next_move = pvline.moves[0];
    let mut factory = MoveFactory::new(game);
    let legal_moves = factory.get_legal_moves();
    if contains_move(legal_moves, next_move) && game.accepts(&next_move) {
        let mut next_game = *game;
        next_game.take_turn(keys, &next_move);
        return Some(next_game);
    }
    None
}

} // verus!
