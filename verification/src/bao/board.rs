//! Bao board.
use vstd::prelude::*;
use crate::bao::direction::Direction;

verus! {

/// The index of the house (nyumba) in the front row.
pub const HOUSE: i8 = 4;

/// The sixteen 64-bit constants, one per pit, from which position hashes are
/// built. Boards can only be compared by hash when they were hashed with the
/// same keys, so a program draws one table and hands it to every call.
#[derive(Clone, Copy, Debug)]
pub struct ZobristKeys {
    pub keys: [u64; 16],
}

/// Draws one 64-bit number from `rand`'s thread-local generator
/// (`rand::random`). Nothing is claimed of the number: any value may come
/// back, and two calls may differ.
#[verifier::external_body]
fn random_u64() -> u64 {
    rand::random()
}

impl ZobristKeys {
    /// A freshly drawn table of keys.
    pub fn random() -> ZobristKeys {
        let mut keys: [u64; 16] = [0u64; 16];
        let mut i: usize = 0;
        while i < 16
            invariant
                i <= 16,
            decreases 16 - i,
        {
            keys[i] = random_u64();
            i += 1;
        }
        ZobristKeys { keys }
    }
}

/// The contribution of one pit to a board's hash: the pit's key rotated left
/// by the number of seeds in the pit.
pub open spec fn pit_term(key: u64, seeds: u8) -> u64 {
    let k = (seeds % 64) as u64;
    if k == 0 {
        key
    } else {
        (key << k) | (key >> ((64 - k) as u64))
    }
}

/// Computes [`pit_term`].
pub fn rotate_key(key: u64, seeds: u8) -> (term: u64)
    ensures
        term == pit_term(key, seeds),
{
    let k: u64 = (seeds % 64) as u64;
    if k == 0 {
        key
    } else {
        (key << k) | (key >> (64 - k))
    }
}

/// The XOR of the terms of the first `n` pits.
pub open spec fn hash_prefix(keys: Seq<u64>, pits: Seq<u8>, n: nat) -> u64
    decreases n,
{
    if n == 0 {
        0
    } else {
        hash_prefix(keys, pits, (n - 1) as nat) ^ pit_term(keys[n - 1], pits[n - 1])
    }
}

/// The hash of a board: the XOR of the terms of all sixteen pits.
pub open spec fn board_hash(keys: Seq<u64>, pits: Seq<u8>) -> u64 {
    hash_prefix(keys, pits, 16)
}

/// XOR can be regrouped and reordered, and a term XOR-ed in twice is gone.
proof fn lemma_xor_swap(a: u64, t: u64, out: u64, inn: u64)
    by (bit_vector)
    ensures
        ((a ^ out) ^ inn) ^ t == ((a ^ t) ^ out) ^ inn,
        (a ^ out) ^ inn == a ^ (out ^ inn),
        a ^ 0 == a,
        a ^ a == 0,
        (a ^ out) ^ out == a,
{
}

/// Changing one pit changes the hash by XOR-ing the pit's old term out and
/// its new term in.
pub proof fn lemma_hash_prefix_update(keys: Seq<u64>, pits: Seq<u8>, n: nat, i: int, value: u8)
    requires
        0 <= i < 16,
        n <= 16,
        keys.len() == 16,
        pits.len() == 16,
    ensures
        hash_prefix(keys, pits.update(i, value), n) == (if i < n {
            (hash_prefix(keys, pits, n) ^ pit_term(keys[i], pits[i])) ^ pit_term(keys[i], value)
        } else {
            hash_prefix(keys, pits, n)
        }),
    decreases n,
{
    if n > 0 {
        let m = (n - 1) as nat;
        lemma_hash_prefix_update(keys, pits, m, i, value);
        let a = hash_prefix(keys, pits, m);
        let out = pit_term(keys[i], pits[i]);
        let inn = pit_term(keys[i], value);
        let t = pit_term(keys[m as int], pits[m as int]);
        lemma_xor_swap(a, t, out, inn);
    }
}

/// Whether bit `bit` (0 is the lowest) of `mask` is set.
pub open spec fn bit_is_set(mask: u8, bit: int) -> bool {
    mask & (1u8 << (bit as u8)) != 0
}

/// The mask with bit `bit` switched on or off.
pub open spec fn with_bit(mask: u8, bit: int, on: bool) -> u8 {
    if on {
        mask | (1u8 << (bit as u8))
    } else {
        mask & !(1u8 << (bit as u8))
    }
}

/// Switching bit `k` on or off changes bit `k` and no other.
proof fn lemma_with_bit(mask: u8, k: u8, j: u8)
    by (bit_vector)
    requires
        k < 8,
        j < 8,
    ensures
        ((mask | (1u8 << k)) & (1u8 << j) != 0) == (j == k || mask & (1u8 << j) != 0),
        ((mask & !(1u8 << k)) & (1u8 << j) != 0) == (j != k && mask & (1u8 << j) != 0),
{
}

/// Switching one bit leaves every other bit as it was.
pub proof fn lemma_with_bit_reads(mask: u8, bit: int, on: bool, other: int)
    requires
        0 <= bit < 8,
        0 <= other < 8,
    ensures
        bit_is_set(with_bit(mask, bit, on), other) == (if other == bit {
            on
        } else {
            bit_is_set(mask, other)
        }),
{
    lemma_with_bit(mask, bit as u8, other as u8);
}

/// The occupancy mask agrees with the front row: bit `7 - i` is set exactly
/// when pit `i` holds a seed.
pub open spec fn occupancy_matches(mask: u8, pits: Seq<u8>) -> bool {
    forall|i: int| 0 <= i < 8 ==> (bit_is_set(mask, 7 - i) <==> #[trigger] pits[i] > 0)
}

/// The pit that is `steps` pits clockwise of `start`.
pub open spec fn ring_cw(start: int, steps: int) -> int {
    (start + steps) % 16
}

/// The pit that is `steps` pits counter-clockwise of `start`.
pub open spec fn ring_ccw(start: int, steps: int) -> int {
    (start - steps) % 16
}

/// The pit that is `steps` pits away from `start` in the given direction.
pub open spec fn ring(start: int, direction: Direction, steps: int) -> int {
    match direction {
        Direction::Clockwise => ring_cw(start, steps),
        Direction::CounterClockwise => ring_ccw(start, steps),
    }
}

/// One seed more, wrapping from 255 to 0 as a `u8` does.
pub open spec fn one_more(seeds: u8) -> u8 {
    if seeds == 255 {
        0
    } else {
        (seeds + 1) as u8
    }
}

/// The pits after `count` seeds were sown one by one, the first into `start`
/// and each following one into the next pit in the given direction.
pub open spec fn sown(pits: Seq<u8>, start: int, direction: Direction, count: nat) -> Seq<u8>
    decreases count,
{
    if count == 0 {
        pits
    } else {
        let before = sown(pits, start, direction, (count - 1) as nat);
        let at = ring(start, direction, count - 1);
        before.update(at, one_more(before[at]))
    }
}

/// The pit that received the last of `count` sown seeds, or `start` when
/// nothing was sown.
pub open spec fn last_sown(start: int, direction: Direction, count: nat) -> int {
    if count == 0 {
        start
    } else {
        ring(start, direction, count - 1)
    }
}

/// The neighbour of pit `at` in the given direction.
pub open spec fn next_pit(at: int, direction: Direction) -> int {
    match direction {
        Direction::Clockwise => if at == 15 {
            0
        } else {
            at + 1
        },
        Direction::CounterClockwise => if at == 0 {
            15
        } else {
            at - 1
        },
    }
}

/// Walking one step further along the ring is stepping to the neighbour.
pub proof fn lemma_ring_step(start: int, direction: Direction, steps: int)
    requires
        0 <= start < 16,
        0 <= steps,
    ensures
        ring(start, direction, 0) == start,
        0 <= ring(start, direction, steps) < 16,
        ring(start, direction, steps + 1) == next_pit(ring(start, direction, steps), direction),
{
}

/// The board at the start of a game.
pub open spec fn initial_pits() -> Seq<u8> {
    seq![0u8, 0, 0, 0, 6, 2, 2, 0, 0, 0, 0, 0, 0, 0, 0, 0]
}

/// One player's half of the board: sixteen pits, of which 0 to 7 are the
/// front row and 8 to 15 the back row, an occupancy mask of the front row
/// and the board's contribution to the position hash.
#[derive(Clone, Copy, Debug)]
pub struct Mashumo {
    pub mashumo: [u8; 16],  // Only for one player.
    pub bitboard: u8,
    pub zobrist: u64,
}

impl View for Mashumo {
    type V = Seq<u8>;

    open spec fn view(&self) -> Seq<u8> {
        self.mashumo@
    }
}

impl Mashumo {
    /// The occupancy mask is consistent with the pits.
    pub open spec fn wf(&self) -> bool {
        occupancy_matches(self.bitboard, self@)
    }

    /// The stored hash is the hash of the pits under `keys`.
    pub open spec fn hashed(&self, keys: &ZobristKeys) -> bool {
        self.zobrist == board_hash(keys.keys@, self@)
    }

    /// The occupancy mask after pit `index` was given `value` seeds: front-row
    /// pits switch their bit, back-row pits leave the mask alone.
    pub open spec fn mask_after(mask: u8, index: int, value: u8) -> u8 {
        if index < 8 {
            with_bit(mask, 7 - index, value > 0)
        } else {
            mask
        }
    }

    /// The stored hash after pit `index` went from `before` to `after` seeds.
    pub open spec fn hash_after(hash: u64, key: u64, before: u8, after: u8) -> u64 {
        (hash ^ pit_term(key, before)) ^ pit_term(key, after)
    }

    /// Giving a pit a new value keeps a consistent board consistent.
    pub proof fn lemma_set_keeps_wf(self, next: Mashumo, keys: &ZobristKeys, index: int, value: u8)
        requires
            0 <= index < 16,
            next@ == self@.update(index, value),
            next.bitboard == Self::mask_after(self.bitboard, index, value),
            next.zobrist == Self::hash_after(
                self.zobrist,
                keys.keys[index],
                self@[index],
                value,
            ),
        ensures
            self.wf() ==> next.wf(),
            self.hashed(keys) ==> next.hashed(keys),
    {
        if self.wf() {
            assert forall|i: int| 0 <= i < 8 implies (bit_is_set(next.bitboard, 7 - i)
                <==> #[trigger] next@[i] > 0) by {
                if index < 8 {
                    lemma_with_bit_reads(self.bitboard, 7 - index, value > 0, 7 - i);
                }
            }
        }
        lemma_hash_prefix_update(keys.keys@, self@, 16, index, value);
    }

    /// Sets pit `index` to `value` and returns nothing; shared by the
    /// mutators below.
    fn put(&mut self, keys: &ZobristKeys, index: i8, value: u8)
        requires
            0 <= index < 16,
        ensures
            final(self)@ == old(self)@.update(index as int, value),
            final(self).bitboard == Self::mask_after(old(self).bitboard, index as int, value),
            final(self).zobrist == Self::hash_after(
                old(self).zobrist,
                keys.keys[index as int],
                old(self)@[index as int],
                value,
            ),
            old(self).wf() ==> final(self).wf(),
            old(self).hashed(keys) ==> final(self).hashed(keys),
    {
        let ghost before = *self;
        let i: usize = index as usize;
        let key: u64 = keys.keys[i];
        self.zobrist = (self.zobrist ^ rotate_key(key, self.mashumo[i])) ^ rotate_key(key, value);
        self.mashumo[i] = value;
        if index < 8 {
            let bit: u8 = 1u8 << ((7 - index) as u8);
            if value > 0 {
                self.bitboard = self.bitboard | bit;
            } else {
                self.bitboard = self.bitboard & !bit;
            }
        }
        proof {
            before.lemma_set_keeps_wf(*self, keys, index as int, value);
        }
    }

    /// On a consistent board the occupancy mask is zero exactly when the
    /// front row is empty.
    pub proof fn lemma_empty_mask_is_empty_front(self)
        requires
            self.wf(),
        ensures
            self.bitboard == 0 <==> (forall|i: int| 0 <= i < 8 ==> #[trigger] self@[i] == 0),
    {
        if self.bitboard == 0 {
            assert forall|i: int| 0 <= i < 8 implies #[trigger] self@[i] == 0 by {
                lemma_zero_mask((7 - i) as u8);
            }
        } else {
            lemma_some_bit(self.bitboard);
            let k = choose|k: int| 0 <= k < 8 && bit_is_set(self.bitboard, k);
            assert(self@[7 - k] > 0);
        }
    }

    /// On consistent boards the occupancy mask depends on nothing but the
    /// pits of the front row.
    pub proof fn lemma_mask_depends_on_pits(self, other: Mashumo)
        requires
            self.wf(),
            other.wf(),
            forall|i: int| 0 <= i < 8 ==> self@[i] == other@[i],
        ensures
            self.bitboard == other.bitboard,
    {
        if self.bitboard != other.bitboard {
            lemma_differing_bit(self.bitboard, other.bitboard);
            let k = choose|k: int|
                0 <= k < 8 && bit_is_set(self.bitboard, k) != bit_is_set(other.bitboard, k);
            assert(self@[7 - k] == other@[7 - k]);
        }
    }

    /// A board with the given pits, its occupancy mask and hash computed from
    /// them.
    pub fn from_pits(keys: &ZobristKeys, pits: [u8; 16]) -> (board: Mashumo)
        ensures
            board@ == pits@,
            board.wf(),
            board.hashed(keys),
    {
        let mut board = Mashumo { mashumo: [0u8; 16], bitboard: 0, zobrist: 0 };
        let mut hash: u64 = 0;
        let mut i: usize = 0;
        while i < 16
            invariant
                i <= 16,
                hash == hash_prefix(keys.keys@, board@, i as nat),
            decreases 16 - i,
        {
            hash = hash ^ rotate_key(keys.keys[i], board.mashumo[i]);
            i += 1;
        }
        board.zobrist = hash;
        proof {
            assert forall|j: int| 0 <= j < 8 implies (bit_is_set(board.bitboard, 7 - j)
                <==> #[trigger] board@[j] > 0) by {
                lemma_zero_mask((7 - j) as u8);
            }
        }
        let mut index: i8 = 0;
        while index < 16
            invariant
                0 <= index <= 16,
                board.wf(),
                board.hashed(keys),
                forall|j: int| 0 <= j < index ==> board@[j] == pits@[j],
                forall|j: int| index <= j < 16 ==> board@[j] == 0,
            decreases 16 - index,
        {
            board.put(keys, index, pits[index as usize]);
            index += 1;
        }
        assert(board@ =~= pits@);
        board
    }

    /// The board at the start of a game: six seeds in the house and two in
    /// each of the two pits to its right.
    pub fn new(keys: &ZobristKeys) -> (board: Mashumo)
        ensures
            board@ == initial_pits(),
            board.wf(),
            board.hashed(keys),
    {
        let board = Self::from_pits(keys, [0, 0, 0, 0, 6, 2, 2, 0, 0, 0, 0, 0, 0, 0, 0, 0]);
        board
    }

    /// Whether the occupancy mask is consistent with the pits.
    pub fn is_wf(&self) -> (ok: bool)
        ensures
            ok == self.wf(),
    {
        let mut index: i8 = 0;
        while index < 8
            invariant
                0 <= index <= 8,
                forall|j: int|
                    0 <= j < index ==> (bit_is_set(self.bitboard, 7 - j) <==> #[trigger] self@[j]
                        > 0),
            decreases 8 - index,
        {
            let bit: u8 = 1u8 << ((7 - index) as u8);
            if (self.bitboard & bit != 0) != (self.mashumo[index as usize] > 0) {
                return false;
            }
            index += 1;
        }
        true
    }

    /// Empties pit `index` and returns what it held.
    pub fn get_and_empty_seeds(&mut self, keys: &ZobristKeys, index: i8) -> (value: u8)
        requires
            0 <= index < 16,
        ensures
            value == old(self)@[index as int],
            final(self)@ == old(self)@.update(index as int, 0),
            final(self).bitboard == Self::mask_after(old(self).bitboard, index as int, 0),
            final(self).zobrist == Self::hash_after(
                old(self).zobrist,
                keys.keys[index as int],
                value,
                0,
            ),
            old(self).wf() ==> final(self).wf(),
            old(self).hashed(keys) ==> final(self).hashed(keys),
    {
        let value = self.mashumo[index as usize];
        self.put(keys, index, 0);
        value
    }

    /// The number of seeds in pit `index`.
    pub fn get_seeds(&self, index: i8) -> (value: u8)
        requires
            0 <= index < 16,
        ensures
            value == self@[index as int],
    {
        self.mashumo[index as usize]
    }

    /// Adds one seed to pit `index`; a pit of 255 seeds wraps to none.
    pub fn increment_seeds(&mut self, keys: &ZobristKeys, index: i8)
        requires
            0 <= index < 16,
        ensures
            final(self)@ == old(self)@.update(index as int, one_more(old(self)@[index as int])),
            final(self).bitboard == Self::mask_after(
                old(self).bitboard,
                index as int,
                one_more(old(self)@[index as int]),
            ),
            final(self).zobrist == Self::hash_after(
                old(self).zobrist,
                keys.keys[index as int],
                old(self)@[index as int],
                one_more(old(self)@[index as int]),
            ),
            old(self).wf() ==> final(self).wf(),
            old(self).hashed(keys) ==> final(self).hashed(keys),
    {
        let value = self.mashumo[index as usize].wrapping_add(1);
        self.put(keys, index, value);
    }

    /// Sets pit `index` to `value` seeds.
    pub fn set_seeds(&mut self, keys: &ZobristKeys, index: i8, value: u8)
        requires
            0 <= index < 16,
        ensures
            final(self)@ == old(self)@.update(index as int, value),
            final(self).bitboard == Self::mask_after(old(self).bitboard, index as int, value),
            final(self).zobrist == Self::hash_after(
                old(self).zobrist,
                keys.keys[index as int],
                old(self)@[index as int],
                value,
            ),
            old(self).wf() ==> final(self).wf(),
            old(self).hashed(keys) ==> final(self).hashed(keys),
    {
        self.put(keys, index, value);
    }

    /// The pit reached after `count` steps clockwise, `index` being the first
    /// step: its seeds and its index.
    pub fn get_shumo_cw(&self, count: usize, index: i8) -> (shumo: (u8, i8))
        requires
            0 <= index < 16,
            count > 0,
        ensures
            shumo.1 == ring_cw(index as int, count - 1),
            shumo.0 == self@[shumo.1 as int],
    {
        let at: usize = (index as usize + (count - 1) % 16) % 16;
        (self.mashumo[at], at as i8)
    }

    /// The pit reached after `count` steps counter-clockwise, `index` being
    /// the first step: its seeds and its index.
    pub fn get_shumo_ccw(&self, count: usize, index: i8) -> (shumo: (u8, i8))
        requires
            0 <= index < 16,
            count > 0,
        ensures
            shumo.1 == ring_ccw(index as int, count - 1),
            shumo.0 == self@[shumo.1 as int],
    {
        let at: usize = (index as usize + 16 - (count - 1) % 16) % 16;
        (self.mashumo[at], at as i8)
    }

    /// The opponent's pit that faces front-row pit `index`; back-row pits
    /// face nothing.
    pub fn get_shumo_opposite(&self, index: i8) -> (opposite: Option<i8>)
        ensures
            opposite == Self::opposite(index as int),
    {
        if 0 <= index && index <= 7 {
            Some(7 - index)
        } else {
            None
        }
    }

    /// The index that faces `index` across the board, if `index` is in the
    /// front row.
    pub open spec fn opposite(index: int) -> Option<i8> {
        if 0 <= index <= 7 {
            Some((7 - index) as i8)
        } else {
            None
        }
    }

    /// The indices of `count` consecutive pits, clockwise from `index`.
    pub fn iter_index_cw(&self, count: usize, index: i8) -> (indices: Vec<usize>)
        requires
            0 <= index < 16,
        ensures
            indices@.len() == count,
            forall|k: int| 0 <= k < count ==> indices@[k] == ring_cw(index as int, k),
    {
        let mut indices: Vec<usize> = Vec::new();
        let mut at: usize = index as usize;
        let mut k: usize = 0;
        while k < count
            invariant
                k <= count,
                0 <= index < 16,
                at == ring_cw(index as int, k as int),
                indices@.len() == k,
                forall|j: int| 0 <= j < k ==> indices@[j] == ring_cw(index as int, j),
            decreases count - k,
        {
            indices.push(at);
            at = if at == 15 {
                0
            } else {
                at + 1
            };
            k += 1;
        }
        indices
    }

    /// The indices of `count` consecutive pits, counter-clockwise from
    /// `index`.
    pub fn iter_index_ccw(&self, count: usize, index: i8) -> (indices: Vec<usize>)
        requires
            0 <= index < 16,
        ensures
            indices@.len() == count,
            forall|k: int| 0 <= k < count ==> indices@[k] == ring_ccw(index as int, k),
    {
        let mut indices: Vec<usize> = Vec::new();
        let mut at: usize = index as usize;
        let mut k: usize = 0;
        while k < count
            invariant
                k <= count,
                0 <= index < 16,
                at == ring_ccw(index as int, k as int),
                indices@.len() == k,
                forall|j: int| 0 <= j < k ==> indices@[j] == ring_ccw(index as int, j),
            decreases count - k,
        {
            indices.push(at);
            at = if at == 0 {
                15
            } else {
                (at - 1) as usize
            };
            k += 1;
        }
        indices
    }

    /// `count` consecutive pits, clockwise from `index`, each with its seeds
    /// and its index. The stride is always one pit.
    pub fn iter_cw(&self, count: usize, index: i8, _stride: i8) -> (pits: Vec<(u8, i8)>)
        requires
            0 <= index < 16,
        ensures
            pits@.len() == count,
            forall|k: int|
                0 <= k < count ==> pits@[k] == (
                    self@[ring_cw(index as int, k)],
                    ring_cw(index as int, k) as i8,
                ),
    {
        let indices = self.iter_index_cw(count, index);
        let mut pits: Vec<(u8, i8)> = Vec::new();
        let mut k: usize = 0;
        while k < count
            invariant
                k <= count,
                indices@.len() == count,
                forall|j: int| 0 <= j < count ==> #[trigger] indices@[j] == ring_cw(index as int, j),
                pits@.len() == k,
                forall|j: int|
                    0 <= j < k ==> pits@[j] == (
                        self@[ring_cw(index as int, j)],
                        ring_cw(index as int, j) as i8,
                    ),
            decreases count - k,
        {
            let at = indices[k];
            pits.push((self.mashumo[at], at as i8));
            k += 1;
        }
        pits
    }

    /// `count` consecutive pits, counter-clockwise from `index`, each with
    /// its seeds and its index. The stride is always one pit.
    pub fn iter_ccw(&self, count: usize, index: i8, _stride: i8) -> (pits: Vec<(u8, i8)>)
        requires
            0 <= index < 16,
        ensures
            pits@.len() == count,
            forall|k: int|
                0 <= k < count ==> pits@[k] == (
                    self@[ring_ccw(index as int, k)],
                    ring_ccw(index as int, k) as i8,
                ),
    {
        let indices = self.iter_index_ccw(count, index);
        let mut pits: Vec<(u8, i8)> = Vec::new();
        let mut k: usize = 0;
        while k < count
            invariant
                k <= count,
                indices@.len() == count,
                forall|j: int| 0 <= j < count ==> #[trigger] indices@[j] == ring_ccw(index as int, j),
                pits@.len() == k,
                forall|j: int|
                    0 <= j < k ==> pits@[j] == (
                        self@[ring_ccw(index as int, j)],
                        ring_ccw(index as int, j) as i8,
                    ),
            decreases count - k,
        {
            let at = indices[k];
            pits.push((self.mashumo[at], at as i8));
            k += 1;
        }
        pits
    }

    /// Sows `seeds` seeds one by one, the first into `index` and each
    /// following one into the next pit in the given direction, and returns
    /// the pit that got the last seed (`index` itself when `seeds` is 0).
    pub fn sow(&mut self, keys: &ZobristKeys, index: i8, direction: Direction, seeds: usize) -> (end_index: i8)
        requires
            0 <= index < 16,
        ensures
            final(self)@ == sown(old(self)@, index as int, direction, seeds as nat),
            end_index == last_sown(index as int, direction, seeds as nat),
            0 <= end_index < 16,
            old(self).wf() ==> final(self).wf(),
            old(self).hashed(keys) ==> final(self).hashed(keys),
    {
        let mut end_index: i8 = index;
        let mut at: i8 = index;
        let mut k: usize = 0;
        while k < seeds
            invariant
                k <= seeds,
                0 <= index < 16,
                0 <= end_index < 16,
                0 <= at < 16,
                at == ring(index as int, direction, k as int),
                self@ == sown(old(self)@, index as int, direction, k as nat),
                end_index == last_sown(index as int, direction, k as nat),
                old(self).wf() ==> self.wf(),
                old(self).hashed(keys) ==> self.hashed(keys),
            decreases seeds - k,
        {
            proof {
                lemma_ring_step(index as int, direction, k as int);
            }
            self.increment_seeds(keys, at);
            end_index = at;
            at = Self::step(at, direction);
            k += 1;
        }
        end_index
    }

    /// The pit next to `at` in the given direction.
    fn step(at: i8, direction: Direction) -> (next: i8)
        requires
            0 <= at < 16,
        ensures
            next == next_pit(at as int, direction),
            0 <= next < 16,
    {
        match direction {
            Direction::Clockwise => if at == 15 {
                0
            } else {
                at + 1
            },
            Direction::CounterClockwise => if at == 0 {
                15
            } else {
                at - 1
            },
        }
    }

    /// Sows clockwise (see [`Mashumo::sow`]).
    pub fn sow_cw(&mut self, keys: &ZobristKeys, index: i8, seeds: usize) -> (end_index: i8)
        requires
            0 <= index < 16,
        ensures
            final(self)@ == sown(old(self)@, index as int, Direction::Clockwise, seeds as nat),
            end_index == last_sown(index as int, Direction::Clockwise, seeds as nat),
            0 <= end_index < 16,
            old(self).wf() ==> final(self).wf(),
            old(self).hashed(keys) ==> final(self).hashed(keys),
    {
        self.sow(keys, index, Direction::Clockwise, seeds)
    }

    /// Sows counter-clockwise (see [`Mashumo::sow`]).
    pub fn sow_ccw(&mut self, keys: &ZobristKeys, index: i8, seeds: usize) -> (end_index: i8)
        requires
            0 <= index < 16,
        ensures
            final(self)@ == sown(
                old(self)@,
                index as int,
                Direction::CounterClockwise,
                seeds as nat,
            ),
            end_index == last_sown(index as int, Direction::CounterClockwise, seeds as nat),
            0 <= end_index < 16,
            old(self).wf() ==> final(self).wf(),
            old(self).hashed(keys) ==> final(self).hashed(keys),
    {
        self.sow(keys, index, Direction::CounterClockwise, seeds)
    }
}

/// A bit of `a ^ b` is set exactly where `a` and `b` differ.
proof fn lemma_xor_bit(a: u8, b: u8, k: u8)
    by (bit_vector)
    requires
        k < 8,
    ensures
        ((a ^ b) & (1u8 << k) != 0) == ((a & (1u8 << k) != 0) != (b & (1u8 << k) != 0)),
        a != b ==> a ^ b != 0,
{
}

/// Two masks that differ differ in one of their eight bits.
proof fn lemma_differing_bit(a: u8, b: u8)
    requires
        a != b,
    ensures
        exists|k: int| 0 <= k < 8 && bit_is_set(a, k) != bit_is_set(b, k),
{
    lemma_xor_bit(a, b, 0);
    let differing = a ^ b;
    lemma_some_bit(differing);
    let k = choose|k: int| 0 <= k < 8 && bit_is_set(differing, k);
    lemma_xor_bit(a, b, k as u8);
    assert(bit_is_set(a, k) != bit_is_set(b, k));
}

/// A mask that is not zero has one of its eight bits set.
proof fn lemma_some_bit_bv(mask: u8)
    by (bit_vector)
    requires
        mask != 0,
    ensures
        mask & (1u8 << 0u8) != 0 || mask & (1u8 << 1u8) != 0 || mask & (1u8 << 2u8) != 0 || mask & (
        1u8 << 3u8) != 0 || mask & (1u8 << 4u8) != 0 || mask & (1u8 << 5u8) != 0 || mask & (1u8
            << 6u8) != 0 || mask & (1u8 << 7u8) != 0,
{
}

/// A mask that is not zero has a set bit.
proof fn lemma_some_bit(mask: u8)
    requires
        mask != 0,
    ensures
        exists|k: int| 0 <= k < 8 && bit_is_set(mask, k),
{
    lemma_some_bit_bv(mask);
    if bit_is_set(mask, 0) {
    } else if bit_is_set(mask, 1) {
    } else if bit_is_set(mask, 2) {
    } else if bit_is_set(mask, 3) {
    } else if bit_is_set(mask, 4) {
    } else if bit_is_set(mask, 5) {
    } else if bit_is_set(mask, 6) {
    } else {
        assert(bit_is_set(mask, 7));
    }
}

/// The zero mask has no bit set.
proof fn lemma_zero_mask(k: u8)
    by (bit_vector)
    requires
        k < 8,
    ensures
        0u8 & (1u8 << k) == 0,
{
}

} // verus!
