//! A cache of search results, shared between the threads of a search.
use vstd::prelude::*;
use rustc_hash::{FxBuildHasher, FxHashMap};
use std::sync::{RwLock, RwLockReadGuard, RwLockWriteGuard};
use crate::bao::board::ZobristKeys;
use crate::bao::game::GameView;
use crate::bao::moves::Move;
use crate::bao::pv::{PVLine, PVLineView};
use crate::search::node::Node;
use crate::search::zobrist::position_hash;

verus! {

/// What the score of an entry says of the true score of its position.
#[derive(Clone, Copy, Debug, PartialEq, Eq, Structural)]
pub enum EntryType {
    /// The score is the true score.
    Exact,
    /// The true score is at least the score.
    LowerBound,
    /// The true score is at most the score.
    UpperBound,
}

/// The best result known for a position.
#[derive(Clone, Copy, Debug)]
pub struct TranspositionTableEntry {
    pub depth: u8,
    pub score: i32,
    pub best_move: Move,
    pub entry_type: EntryType,
}

/// The number of shards of a table.
pub const TABLE_SIZE: usize = 128;

/// The high 64 bits of the 128-bit product of `a` and `b`.
pub open spec fn high_product(a: u64, b: u64) -> int {
    (a * b) / 0x1_0000_0000_0000_0000
}

/// The shard that holds the entries of `key`: the keys are spread evenly
/// over the shards, in the order of their size.
pub open spec fn shard_of(key: u64) -> int {
    high_product(key, TABLE_SIZE as u64)
}

/// The high half of a product is smaller than either factor.
pub proof fn lemma_high_product(a: u64, b: u64)
    ensures
        0 <= high_product(a, b),
        b > 0 ==> high_product(a, b) < b,
        a * b < 0x1_0000_0000_0000_0000_0000_0000_0000_0000,
{
    assert(0 <= a * b <= 0xffff_ffff_ffff_ffff * b) by (nonlinear_arith)
        requires
            0 <= a <= 0xffff_ffff_ffff_ffff,
            0 <= b,
    ;
    assert(0xffff_ffff_ffff_ffff * b <= 0xffff_ffff_ffff_ffff * 0xffff_ffff_ffff_ffff)
        by (nonlinear_arith)
        requires
            0 <= b <= 0xffff_ffff_ffff_ffff,
    ;
}

/// Shifting a 128-bit number right by 64 bits halves its width.
proof fn lemma_shift_is_division(x: u128)
    by (bit_vector)
    ensures
        x >> 64 == x / 0x1_0000_0000_0000_0000,
        x >> 64 <= 0xffff_ffff_ffff_ffff,
{
}

/// Computes the high 64 bits of the 128-bit product of `a` and `b`.
pub fn mul_hi64(a: u64, b: u64) -> (high: u64)
    ensures
        high == high_product(a, b),
        b > 0 ==> high < b,
{
    proof {
        lemma_high_product(a, b);
    }
    let product: u128 = (a as u128) * (b as u128);
    proof {
        lemma_shift_is_division(product);
    }
    (product >> 64) as u64
}

/// `rustc_hash::FxBuildHasher`, the builder of the hashers of an
/// `FxHashMap`.
#[verifier::external_type_specification]
#[verifier::external_body]
pub struct ExFxBuildHasher(FxBuildHasher);

/// An empty `FxHashMap` (`FxHashMap::default`).
#[verifier::external_body]
fn fx_new() -> (fresh: FxHashMap<u64, TranspositionTableEntry>)
    ensures
        fresh@.dom() == Set::<u64>::empty(),
{
    FxHashMap::default()
}

/// Looks a key up in an `FxHashMap` (`HashMap::get`): the value stored
/// under the key, if there is one.
#[verifier::external_body]
fn fx_get(map: &FxHashMap<u64, TranspositionTableEntry>, key: u64) -> (found: Option<
    TranspositionTableEntry,
>)
    ensures
        found == (if map@.contains_key(key) {
            Some(map@[key])
        } else {
            None
        }),
{
    map.get(&key).copied()
}

/// Stores a value under a key of an `FxHashMap` (`HashMap::insert`): the
/// key then maps to the value, and every other key to what it mapped to.
#[verifier::external_body]
fn fx_insert(
    map: &mut FxHashMap<u64, TranspositionTableEntry>,
    key: u64,
    entry: TranspositionTableEntry,
)
    ensures
        final(map)@ == old(map)@.insert(key, entry),
{
    map.insert(key, entry);
}

/// What a shard holds after `entry` was offered for `key`: the entry takes
/// the place of a stored entry unless the stored one was searched deeper.
pub open spec fn stored(
    entries: Map<u64, TranspositionTableEntry>,
    key: u64,
    entry: TranspositionTableEntry,
) -> Map<u64, TranspositionTableEntry> {
    if entries.contains_key(key) && entries[key].depth > entry.depth {
        entries
    } else {
        entries.insert(key, entry)
    }
}

/// Monotonicity: offering an entry never lowers the depth that is stored for
/// a position, nor takes a position out of the shard, and touches no other
/// position.
pub proof fn lemma_stored_depth_never_falls(
    entries: Map<u64, TranspositionTableEntry>,
    key: u64,
    entry: TranspositionTableEntry,
    other: u64,
)
    ensures
        stored(entries, key, entry).contains_key(key),
        stored(entries, key, entry)[key].depth >= entry.depth,
        entries.contains_key(other) ==> stored(entries, key, entry).contains_key(other) && stored(
            entries,
            key,
            entry,
        )[other].depth >= entries[other].depth,
        other != key && entries.contains_key(other) ==> stored(entries, key, entry)[other]
            == entries[other],
        other != key && !entries.contains_key(other) ==> !stored(entries, key, entry).contains_key(
            other,
        ),
{
}

/// One of the independent maps of a table.
pub struct Shard {
    map: FxHashMap<u64, TranspositionTableEntry>,
}

impl View for Shard {
    type V = Map<u64, TranspositionTableEntry>;

    closed spec fn view(&self) -> Map<u64, TranspositionTableEntry> {
        self.map@
    }
}

impl Shard {
    /// A shard that holds nothing.
    pub fn new() -> (shard: Shard)
        ensures
            shard@ == Map::<u64, TranspositionTableEntry>::empty(),
    {
        let shard = Shard { map: fx_new() };
        shard
    }

    /// Offers a result for the position `key` (see [`stored`]).
    pub fn insert(&mut self, key: u64, best_move: &Move, depth: u8, score: i32, entry_type: EntryType)
        ensures
            final(self)@ == stored(
                old(self)@,
                key,
                (TranspositionTableEntry { depth, score, best_move: *best_move, entry_type }),
            ),
            forall|other: u64|
                old(self)@.contains_key(other) ==> #[trigger] final(self)@.contains_key(other)
                    && final(self)@[other].depth >= old(self)@[other].depth,
    {
        let entry = TranspositionTableEntry { depth, score, best_move: *best_move, entry_type };
        match fx_get(&self.map, key) {
            Some(known) => {
                if known.depth <= depth {
                    fx_insert(&mut self.map, key, entry);
                }
            },
            None => {
                fx_insert(&mut self.map, key, entry);
            },
        }
    }

    /// The result stored for the position `key`, if there is one.
    pub fn probe(&self, key: u64) -> (found: Option<TranspositionTableEntry>)
        ensures
            found == (if self@.contains_key(key) {
                Some(self@[key])
            } else {
                None
            }),
    {
        fx_get(&self.map, key)
    }
}

/// `std::sync::RwLock`: Verus sees nothing of what a lock guards.
#[verifier::external_type_specification]
#[verifier::external_body]
#[verifier::reject_recursive_types(T)]
pub struct ExRwLock<T: ?Sized>(RwLock<T>);

/// `std::sync::RwLockWriteGuard`.
#[verifier::external_type_specification]
#[verifier::external_body]
#[verifier::reject_recursive_types(T)]
pub struct ExRwLockWriteGuard<'a, T: ?Sized + 'a>(RwLockWriteGuard<'a, T>);

/// `std::sync::RwLockReadGuard`.
#[verifier::external_type_specification]
#[verifier::external_body]
#[verifier::reject_recursive_types(T)]
pub struct ExRwLockReadGuard<'a, T: ?Sized>(RwLockReadGuard<'a, T>);

/// Puts a shard behind a lock (`RwLock::new`).
#[verifier::external_body]
fn new_lock(shard: Shard) -> RwLock<Shard> {
    RwLock::new(shard)
}

/// Waits for the lock and takes it for writing (`RwLock::write`); a lock
/// that another thread left poisoned is taken all the same. Nothing is
/// claimed of the shard behind the lock: other threads may have written to
/// it.
#[verifier::external_body]
fn lock_write<'a>(lock: &'a RwLock<Shard>) -> RwLockWriteGuard<'a, Shard> {
    match lock.write() {
        Ok(guard) => guard,
        Err(poisoned) => poisoned.into_inner(),
    }
}

/// The shard behind a lock that is held for writing (the guard's
/// `deref_mut`).
#[verifier::external_body]
fn guarded_mut<'a, 'b>(guard: &'a mut RwLockWriteGuard<'b, Shard>) -> &'a mut Shard {
    &mut **guard
}

/// Waits for the lock and takes it for reading (`RwLock::read`); a lock
/// that another thread left poisoned is taken all the same. Nothing is
/// claimed of the shard behind the lock.
#[verifier::external_body]
fn lock_read<'a>(lock: &'a RwLock<Shard>) -> RwLockReadGuard<'a, Shard> {
    match lock.read() {
        Ok(guard) => guard,
        Err(poisoned) => poisoned.into_inner(),
    }
}

/// The shard behind a lock that is held for reading (the guard's `deref`).
#[verifier::external_body]
fn guarded<'a, 'b>(guard: &'a RwLockReadGuard<'b, Shard>) -> &'a Shard {
    &**guard
}

/// A cache from position hashes to search results. It is made of 128
/// shards, each behind a lock of its own, so that the threads of a search
/// can share it: a thread holds the lock of one shard for the time of one
/// look-up or one insertion.
pub struct TranspositionTable {
    maps: Vec<RwLock<Shard>>,
}

impl Default for TranspositionTable {
    /// A table of 128 empty shards.
    fn default() -> (table: Self)
        ensures
            table.shard_count() == TABLE_SIZE,
    {
        Self::new()
    }
}

impl TranspositionTable {
    #[verifier::type_invariant]
    spec fn inv(&self) -> bool {
        self.maps@.len() == TABLE_SIZE
    }

    /// The number of shards of the table.
    pub closed spec fn shard_count(&self) -> nat {
        self.maps@.len()
    }

    /// A table of 128 empty shards, each behind a lock of its own.
    pub fn new() -> (table: TranspositionTable)
        ensures
            table.shard_count() == TABLE_SIZE,
    {
        let mut maps: Vec<RwLock<Shard>> = Vec::new();
        let mut i: usize = 0;
        while i < TABLE_SIZE
            invariant
                i <= TABLE_SIZE,
                maps@.len() == i,
            decreases TABLE_SIZE - i,
        {
            maps.push(new_lock(Shard::new()));
            i += 1;
        }
        TranspositionTable { maps }
    }

    /// The lock of the shard of `key` (see [`shard_of`]).
    fn shard(&self, key: u64) -> (lock: &RwLock<Shard>)
        ensures
            0 <= shard_of(key) < self.shard_count(),
            *lock == self.maps@[shard_of(key)],
    {
        proof {
            use_type_invariant(self);
        }
        let table_index = mul_hi64(key, TABLE_SIZE as u64);
        &self.maps[table_index as usize]
    }

    /// Offers a result for the position `key` to the shard of the key (see
    /// [`Shard::insert`]); the lock of that shard is held meanwhile.
    pub fn insert(&self, key: u64, best_move: &Move, depth: u8, score: i32, entry_type: EntryType) {
        let mut guard = lock_write(self.shard(key));
        let shard = guarded_mut(&mut guard);
        shard.insert(key, best_move, depth, score, entry_type);
    }

    /// The result that the shard of `key` holds for the position, if it
    /// holds one (see [`Shard::probe`]). What it holds is what the threads
    /// that share the table have stored by now.
    pub fn probe(&self, key: u64) -> Option<TranspositionTableEntry> {
        let guard = lock_read(self.shard(key));
        let shard = guarded(&guard);
        shard.probe(key)
    }

    /// Adds one move to a line that follows the table from `node`: `entry`
    /// is what the table holds for the node. The stored move is added to
    /// the line, the stored score becomes the line's score, and the walk
    /// goes on from the node after the move. The walk ends, with the line
    /// as it was, if the table holds nothing for the node or the game cannot
    /// play the stored move.
    pub fn extend_line(
        line: &mut PVLine,
        keys: &ZobristKeys,
        node: &Node,
        entry: Option<TranspositionTableEntry>,
    ) -> (next: Option<Node>)
        requires
            node.game.wf(),
        ensures
            match entry {
                Some(found) if node.game@.accepts(found.best_move) => {
                    &&& final(line)@.moves == old(line)@.moves.push(found.best_move)
                    &&& final(line)@.value == found.score
                    &&& next is Some
                    &&& next->Some_0.game@ == node.game@.after_turn(found.best_move)
                    &&& next->Some_0.wf()
                    &&& node.game.hashed(keys) ==> next->Some_0.hashed(keys)
                },
                _ => next is None && final(line)@ == old(line)@,
            },
    {
        match entry {
            Some(found) => {
                if !node.game.accepts(&found.best_move) {
                    return None;
                }
                line.moves.push(found.best_move);
                line.value = found.score;
                Some(node.apply_move(keys, &found.best_move))
            },
            None => None,
        }
    }

    /// The line of at most `depth` moves that the table holds from `node`
    /// on (see [`pv_line`]). What the table holds is what the threads that
    /// share it have stored by now.
    pub fn get_pv_line(&self, keys: &ZobristKeys, node: &Node, depth: u8) -> (pv_line: PVLine)
        requires
            node.game.wf(),
        ensures
            pv_line@.moves.len() <= depth,
            pv_line@.moves.len() == 0 ==> pv_line@.value == 0,
            node.game@.after_line(pv_line@.moves) is Some,
    {
        let mut shared = self;
        pv_line(&mut shared, keys, node, depth)
    }
}

/// The entry that `entries` holds for `key`, if any.
pub open spec fn held(entries: Map<u64, TranspositionTableEntry>, key: u64) -> Option<
    TranspositionTableEntry,
> {
    if entries.contains_key(key) {
        Some(entries[key])
    } else {
        None
    }
}

/// A cache of search results as the search uses it. A cache is either the
/// searcher's own, and then it holds what the searcher has stored in it, or
/// it is shared with other searchers, and then nothing is known of what it
/// holds.
pub trait Cache {
    /// What the cache holds, if it is the searcher's own.
    spec fn entries(&self) -> Option<Map<u64, TranspositionTableEntry>>;

    /// The result that the cache holds for the position `key`.
    fn lookup(&mut self, key: u64) -> (found: Option<TranspositionTableEntry>)
        ensures
            final(self).entries() == old(self).entries(),
            old(self).entries() matches Some(own) ==> found == held(own, key),
    ;

    /// Offers a result for the position `key` (see [`stored`]).
    fn offer(&mut self, key: u64, best_move: &Move, depth: u8, score: i32, entry_type: EntryType)
        ensures
            final(self).entries() == (match old(self).entries() {
                Some(own) => Some(
                    stored(
                        own,
                        key,
                        (TranspositionTableEntry { depth, score, best_move: *best_move, entry_type }),
                    ),
                ),
                None => None,
            }),
    ;
}

/// A shard by itself is a cache of the searcher's own.
impl Cache for Shard {
    open spec fn entries(&self) -> Option<Map<u64, TranspositionTableEntry>> {
        Some(self@)
    }

    fn lookup(&mut self, key: u64) -> (found: Option<TranspositionTableEntry>) {
        self.probe(key)
    }

    fn offer(&mut self, key: u64, best_move: &Move, depth: u8, score: i32, entry_type: EntryType) {
        self.insert(key, best_move, depth, score, entry_type)
    }
}

/// A table is a cache that threads share: a search is handed `&mut &table`.
impl<'a> Cache for &'a TranspositionTable {
    open spec fn entries(&self) -> Option<Map<u64, TranspositionTableEntry>> {
        None
    }

    fn lookup(&mut self, key: u64) -> (found: Option<TranspositionTableEntry>) {
        self.probe(key)
    }

    fn offer(&mut self, key: u64, best_move: &Move, depth: u8, score: i32, entry_type: EntryType) {
        self.insert(key, best_move, depth, score, entry_type)
    }
}

/// The line that follows `entries` for `steps` more moves from `game`, after
/// the line `line`: at each step the move stored for the position is added
/// and played, and its score becomes the score of the line. The line ends
/// early at a position for which nothing is stored or whose stored move the
/// game cannot play.
pub open spec fn followed(
    entries: Map<u64, TranspositionTableEntry>,
    keys: Seq<u64>,
    game: GameView,
    steps: nat,
    line: PVLineView,
) -> PVLineView
    decreases steps,
{
    if steps == 0 {
        line
    } else {
        match held(entries, position_hash(keys, game)) {
            Some(found) => if game.accepts(found.best_move) {
                followed(
                    entries,
                    keys,
                    game.after_turn(found.best_move),
                    (steps - 1) as nat,
                    PVLineView { moves: line.moves.push(found.best_move), value: found.score },
                )
            } else {
                line
            },
            None => line,
        }
    }
}

/// The line of at most `depth` moves that the cache holds from `node` on:
/// at each step the move stored for the position is added and played (see
/// [`TranspositionTable::extend_line`]). The score of the line is the score
/// of the last entry that was used, or zero. With a cache of the searcher's
/// own and a node hashed with `keys`, the line is the one that [`followed`]
/// describes.
pub fn pv_line<C: Cache>(cache: &mut C, keys: &ZobristKeys, node: &Node, depth: u8) -> (pv_line:
    PVLine)
    requires
        node.game.wf(),
    ensures
        final(cache).entries() == old(cache).entries(),
        pv_line@.moves.len() <= depth,
        pv_line@.moves.len() == 0 ==> pv_line@.value == 0,
        node.game@.after_line(pv_line@.moves) is Some,
        old(cache).entries() matches Some(own) ==> (node.hashed(keys) ==> pv_line@ == followed(
            own,
            keys.keys@,
            node.game@,
            depth as nat,
            (PVLineView { moves: Seq::empty(), value: 0 }),
        )),
{
    let mut pv_line = PVLine { moves: Vec::new(), value: 0 };
    let mut current_node = *node;
    let mut step: u8 = 0;
    let mut ended = false;
    while step < depth && !ended
        invariant
            step <= depth,
            current_node.game.wf(),
            cache.entries() == old(cache).entries(),
            pv_line@.moves.len() <= step,
            pv_line@.moves.len() == 0 ==> pv_line@.value == 0,
            node.game@.after_line(pv_line@.moves) == Some(current_node.game@),
            node.hashed(keys) ==> current_node.hashed(keys),
            old(cache).entries() matches Some(own) ==> (node.hashed(keys) ==> followed(
                own,
                keys.keys@,
                node.game@,
                depth as nat,
                (PVLineView { moves: Seq::empty(), value: 0 }),
            ) == (if ended {
                pv_line@
            } else {
                followed(own, keys.keys@, current_node.game@, (depth - step) as nat, pv_line@)
            })),
        decreases depth - step + (if ended { 0int } else { 1int }),
    {
        let entry = cache.lookup(current_node.zobrist);
        let ghost line = pv_line@.moves;
        match TranspositionTable::extend_line(&mut pv_line, keys, &current_node, entry) {
            Some(next) => {
                assert(pv_line@.moves.drop_last() =~= line);
                current_node = next;
                step += 1;
            },
            None => {
                ended = true;
            },
        }
    }
    pv_line
}

} // verus!
