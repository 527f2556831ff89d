//! Position hashes.
use vstd::prelude::*;
use crate::bao::board::{board_hash, ZobristKeys};
use crate::bao::game::{Game, GameView};

verus! {

/// `x` with the order of its 64 bits reversed: halves, then quarters, and so
/// on down to single bits change places.
pub open spec fn reversed(x: u64) -> u64 {
    let x = (x >> 32) | (x << 32);
    let x = ((x >> 16) & 0x0000_ffff_0000_ffff) | ((x & 0x0000_ffff_0000_ffff) << 16);
    let x = ((x >> 8) & 0x00ff_00ff_00ff_00ff) | ((x & 0x00ff_00ff_00ff_00ff) << 8);
    let x = ((x >> 4) & 0x0f0f_0f0f_0f0f_0f0f) | ((x & 0x0f0f_0f0f_0f0f_0f0f) << 4);
    let x = ((x >> 2) & 0x3333_3333_3333_3333) | ((x & 0x3333_3333_3333_3333) << 2);
    ((x >> 1) & 0x5555_5555_5555_5555) | ((x & 0x5555_5555_5555_5555) << 1)
}

/// Bit `i` of the reversed number is bit `63 - i` of the number.
pub proof fn lemma_reversed_bit(x: u64, i: u64)
    by (bit_vector)
    requires
        i < 64,
    ensures
        (reversed(x) >> i) & 1 == (x >> ((63 - i) as u64)) & 1,
{
}

/// Reverses the order of the bits of `x`.
pub fn reverse_bits(x: u64) -> (r: u64)
    ensures
        r == reversed(x),
{
    let x = (x >> 32) | (x << 32);
    let x = ((x >> 16) & 0x0000_ffff_0000_ffff) | ((x & 0x0000_ffff_0000_ffff) << 16);
    let x = ((x >> 8) & 0x00ff_00ff_00ff_00ff) | ((x & 0x00ff_00ff_00ff_00ff) << 8);
    let x = ((x >> 4) & 0x0f0f_0f0f_0f0f_0f0f) | ((x & 0x0f0f_0f0f_0f0f_0f0f) << 4);
    let x = ((x >> 2) & 0x3333_3333_3333_3333) | ((x & 0x3333_3333_3333_3333) << 2);
    ((x >> 1) & 0x5555_5555_5555_5555) | ((x & 0x5555_5555_5555_5555) << 1)
}

/// The hash of a position: the hash of the mover's pits XOR-ed with the
/// bit-reversed hash of the opponent's pits.
pub open spec fn position_hash(keys: Seq<u64>, game: GameView) -> u64 {
    board_hash(keys, game.current.pits) ^ reversed(board_hash(keys, game.other.pits))
}

/// The hash that the two boards of `game` store between them.
pub open spec fn stored_hash(game: &Game) -> u64 {
    game.current_player.mashumo.zobrist ^ reversed(game.other_player.mashumo.zobrist)
}

/// The hash of the position of `game`, from the hashes that its boards
/// store.
#[verifier::when_used_as_spec(stored_hash)]
pub fn zobrist(game: &Game) -> (hash: u64)
    ensures
        hash == stored_hash(game),
        forall|keys: &ZobristKeys| game.hashed(keys) ==> hash == position_hash(keys.keys@, game@),
{
    let mut hash = game.current_player.mashumo.zobrist;
    hash ^= reverse_bits(game.other_player.mashumo.zobrist);
    hash
}

/// Hash determinism: the hash of a position depends on nothing but the keys
/// and the seeds in the pits of the two boards. Games that were reached in
/// different ways, or whose reserves and houses differ, hash alike if their
/// pits are alike.
pub proof fn lemma_hash_depends_on_pits(a: Game, b: Game, keys: &ZobristKeys)
    requires
        a.hashed(keys),
        b.hashed(keys),
        a@.current.pits == b@.current.pits,
        a@.other.pits == b@.other.pits,
    ensures
        stored_hash(&a) == stored_hash(&b),
        stored_hash(&a) == position_hash(keys.keys@, a@),
{
}

} // verus!
