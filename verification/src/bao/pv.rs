//! Principal variation lines.
use vstd::prelude::*;
use crate::bao::moves::Move;

verus! {

/// A principal variation: the moves that the search expects to be played and
/// the score that it gives the position.
#[derive(Clone, Debug)]
pub struct PVLine {
    pub moves: Vec<Move>,
    pub value: i32,
}

/// The content of a [`PVLine`].
pub struct PVLineView {
    pub moves: Seq<Move>,
    pub value: i32,
}

impl View for PVLine {
    type V = PVLineView;

    open spec fn view(&self) -> PVLineView {
        PVLineView { moves: self.moves@, value: self.value }
    }
}

impl PVLineView {
    /// Whether this line comes before `other` when lines are ranked: a
    /// longer line comes before a shorter one, and of two lines of one
    /// length the one with the lower score.
    pub open spec fn ranks_before(self, other: PVLineView) -> bool {
        if self.moves.len() == other.moves.len() {
            self.value < other.value
        } else {
            other.moves.len() < self.moves.len()
        }
    }
}

/// No line of `lines` comes after a line that it should come before.
pub open spec fn ranked(lines: Seq<PVLine>) -> bool {
    forall|i: int, j: int|
        0 <= i < j < lines.len() ==> !(#[trigger] lines[j])@.ranks_before((#[trigger] lines[i])@)
}

/// The place of a new line among ranked lines: behind every line that
/// comes before it or ranks with it, in front of the first line that it
/// comes before.
pub open spec fn rank_of(lines: Seq<PVLine>, line: PVLineView) -> int
    decreases lines.len(),
{
    if lines.len() == 0 || line.ranks_before(lines[0]@) {
        0
    } else {
        1 + rank_of(lines.drop_first(), line)
    }
}

impl PVLine {
    /// Replaces the line by the move `m`, if there is one, followed by the
    /// moves of `pvline`, and gives it the score `value`.
    pub fn update(&mut self, m: Option<Move>, pvline: PVLine, value: i32)
        ensures
            final(self)@.moves == (match m {
                Some(first) => seq![first] + pvline@.moves,
                None => pvline@.moves,
            }),
            final(self)@.value == value,
    {
        let mut moves = pvline.moves;
        if let Some(first) = m {
            moves.insert(0, first);
        }
        self.moves = moves;
        self.value = value;
    }

    /// The number of moves of the line.
    pub fn get_depth(&self) -> (depth: usize)
        ensures
            depth == self@.moves.len(),
    {
        self.moves.len()
    }

    /// Whether this line comes before `other` when lines are ranked (see
    /// [`PVLineView::ranks_before`]).
    pub fn ranks_before(&self, other: &PVLine) -> (before: bool)
        ensures
            before == self@.ranks_before(other@),
    {
        if self.get_depth() == other.get_depth() {
            self.value < other.value
        } else {
            other.moves.len() < self.moves.len()
        }
    }

    /// Puts a new line in its place among ranked lines (see [`rank_of`]);
    /// the first of the lines is then the one to play.
    pub fn insert_ranked(lines: &mut Vec<PVLine>, line: PVLine)
        ensures
            final(lines)@ == old(lines)@.insert(rank_of(old(lines)@, line@), line),
            0 <= rank_of(old(lines)@, line@) <= old(lines)@.len(),
            ranked(old(lines)@) ==> ranked(final(lines)@),
    {
        let mut at: usize = 0;
        assert(lines@.subrange(0, lines@.len() as int) =~= lines@);
        while at < lines.len() && !line.ranks_before(&lines[at])
            invariant
                at <= lines@.len(),
                lines@ == old(lines)@,
                rank_of(lines@, line@) == at + rank_of(
                    lines@.subrange(at as int, lines@.len() as int),
                    line@,
                ),
                forall|k: int| 0 <= k < at ==> !line@.ranks_before((#[trigger] lines@[k])@),
            decreases lines@.len() - at,
        {
            assert(lines@.subrange(at as int, lines@.len() as int).drop_first() =~= lines@.subrange(
                at + 1,
                lines@.len() as int,
            ));
            at += 1;
        }
        lines.insert(at, line);
    }
}

} // verus!
