//! Search nodes.
use vstd::prelude::*;
use crate::bao::board::ZobristKeys;
use crate::bao::game::{Game, MAX_SEEDS};
use crate::bao::moves::Move;
use crate::search::zobrist::{position_hash, stored_hash, zobrist};

verus! {

/// A position of the search: a game and the hash of its position.
#[derive(Clone, Copy, Debug)]
pub struct Node {
    pub game: Game,
    pub zobrist: u64,
}

impl Node {
    /// The game is consistent and the node's hash is the one that the two
    /// boards store.
    pub open spec fn wf(&self) -> bool {
        self.game.wf() && self.zobrist == stored_hash(&self.game)
    }

    /// The boards of the game are hashed with `keys`, and the node's hash is
    /// the hash of the position under `keys`.
    pub open spec fn hashed(&self, keys: &ZobristKeys) -> bool {
        self.game.hashed(keys) && self.zobrist == position_hash(keys.keys@, self.game@)
    }

    /// The node of a game, with the hash computed afresh from the two boards.
    pub fn new(game: Game) -> (node: Node)
        ensures
            node.game == game,
            node.zobrist == stored_hash(&game),
            forall|keys: &ZobristKeys| game.hashed(keys) ==> #[trigger] node.hashed(keys),
    {
        let zobrist = zobrist(&game);
        Node { game, zobrist }
    }

    /// The node after the turn that starts with `m`. The node itself is left
    /// as it is; the hash of the new node is computed afresh, since the
    /// players have changed sides.
    pub fn apply_move(&self, keys: &ZobristKeys, m: &Move) -> (next: Node)
        requires
            self.game.wf(),
            self.game@.accepts(*m),
        ensures
            next.game@ == self.game@.after_turn(*m),
            next.wf(),
            self.game.hashed(keys) ==> next.hashed(keys),
            self.game@.total() <= MAX_SEEDS ==> next.game@.total() == self.game@.total(),
    {
        let mut next_game = self.game;
        next_game.take_turn(keys, m);
        let zobrist = zobrist(&next_game);

        Node { game: next_game, zobrist }
    }
}

} // verus!
