//! Bao players.
use vstd::prelude::*;
use crate::bao::board::{initial_pits, Mashumo, ZobristKeys};

verus! {

/// The number of seeds each player holds in reserve when a game starts.
pub const RESERVE: u8 = 22;

/// One side of the game: a board, the seeds still in reserve and whether the
/// house is still intact.
#[derive(Clone, Copy, Debug)]
pub struct Player {
    pub mashumo: Mashumo,
    pub seeds: u8,
    pub nyumba: bool,
}

/// What the rules see of a player: the pits, the reserve and the state of
/// the house.
pub struct PlayerView {
    pub pits: Seq<u8>,
    pub seeds: u8,
    pub nyumba: bool,
}

impl View for Player {
    type V = PlayerView;

    open spec fn view(&self) -> PlayerView {
        PlayerView { pits: self.mashumo@, seeds: self.seeds, nyumba: self.nyumba }
    }
}

/// The number of seeds in sixteen pits.
pub open spec fn pit_sum(pits: Seq<u8>) -> int {
    pits[0] + pits[1] + pits[2] + pits[3] + pits[4] + pits[5] + pits[6] + pits[7] + pits[8]
        + pits[9] + pits[10] + pits[11] + pits[12] + pits[13] + pits[14] + pits[15]
}

impl PlayerView {
    /// All the seeds of this player: those on the board and those in reserve.
    pub open spec fn total(self) -> int {
        pit_sum(self.pits) + self.seeds
    }

    /// No seed is left in the front row.
    pub open spec fn front_empty(self) -> bool {
        forall|i: int| 0 <= i < 8 ==> #[trigger] self.pits[i] == 0
    }

    /// The player at the start of a game.
    pub open spec fn initial() -> PlayerView {
        PlayerView { pits: initial_pits(), seeds: RESERVE, nyumba: true }
    }
}

impl Player {
    /// The board's occupancy mask is consistent with its pits.
    pub open spec fn wf(&self) -> bool {
        self.mashumo.wf()
    }

    /// The board's stored hash is the hash of its pits under `keys`.
    pub open spec fn hashed(&self, keys: &ZobristKeys) -> bool {
        self.mashumo.hashed(keys)
    }

    /// A player at the start of a game: the initial board, 22 seeds in
    /// reserve and an intact house.
    pub fn new(keys: &ZobristKeys) -> (player: Player)
        ensures
            player@ == PlayerView::initial(),
            player.wf(),
            player.hashed(keys),
    {
        Player { mashumo: Mashumo::new(keys), seeds: RESERVE, nyumba: true }
    }
}

} // verus!
