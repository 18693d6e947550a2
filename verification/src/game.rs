//! Game sequencing: one board, a move history for undo, and repetition
//! counting. No new move logic lives here; it all delegates to the move
//! generator and applier.

use vstd::prelude::*;
use crate::board::board::{Board, BoardView};
use crate::moves::{apply_spec, lemma_apply_then_undo, pseudo_legal, undo_for, Move, UndoInfo};
use crate::movegen::{is_legal, legal, legal_moves};
use crate::attacks::{piece_eq, side_eq};

verus! {

/// Positions equal for repetition purposes: same placement, side to move,
/// castling rights, and en-passant target (clocks do not matter).
pub open spec fn same_position(a: BoardView, b: BoardView) -> bool {
    &&& a.squares == b.squares
    &&& a.turn == b.turn
    &&& a.rights == b.rights
    &&& a.ep == b.ep
}

/// How many snapshots in `h` show the same position as `v`.
pub open spec fn reps_in(h: Seq<(Board, UndoInfo)>, v: BoardView) -> int
    decreases h.len(),
{
    if h.len() == 0 {
        0
    } else {
        reps_in(h.drop_last(), v) + if same_position(h.last().0@, v) {
            1int
        } else {
            0int
        }
    }
}

/// A game in progress: the current board and, for each played move, the
/// position it was played from together with the record needed to undo it.
pub struct Game {
    /// The current position.
    pub board: Board,
    /// One entry per played move: the pre-move snapshot and the undo record.
    pub history: Vec<(Board, UndoInfo)>,
}

impl Game {
    /// History entries chain correctly: each snapshot is well formed, its
    /// move was pseudo-legal there, its undo record is the one applying
    /// that move produces, and applying it yields the next snapshot (or
    /// the current board, for the last entry).
    pub open spec fn entry_ok(self, i: int) -> bool {
        let snap = self.history@[i].0;
        let u = self.history@[i].1;
        &&& snap.wf()
        &&& snap.halfmove_clock < u64::MAX
        &&& snap.fullmove_number < u64::MAX
        &&& pseudo_legal(snap@, u.mv)
        &&& u == undo_for(snap@, u.mv)
        &&& apply_spec(snap@, u.mv) == (if i + 1 < self.history@.len() {
            self.history@[i + 1].0@
        } else {
            self.board@
        })
    }

    /// A well-formed game: well-formed board and a coherent history.
    pub open spec fn wf(self) -> bool {
        &&& self.board.wf()
        &&& forall|i: int| 0 <= i < self.history@.len() ==> #[trigger] self.entry_ok(i)
    }

    /// A new game from an initial position, with empty history.
    pub fn new(board: Board) -> (g: Game)
        requires
            board.wf(),
        ensures
            g.wf(),
            g.board@ == board@,
            g.history@.len() == 0,
    {
        Game { board, history: Vec::new() }
    }

    /// A game from the standard starting position.
    pub fn start() -> (g: Game)
        ensures
            g.wf(),
            g.board@ == crate::board::board::start_view(),
            g.history@.len() == 0,
    {
        Game::new(Board::start())
    }

    /// The legal moves in the current position. The clock bounds are
    /// machine limits only.
    pub fn legal_moves(&self) -> (r: Vec<Move>)
        requires
            self.wf(),
            self.board.halfmove_clock < u64::MAX,
            self.board.fullmove_number < u64::MAX,
        ensures
            forall|m: Move| #[trigger] r@.contains(m) <==> legal(self.board@, m),
            forall|i: int, j: int| 0 <= i < j < r@.len() ==> r@[i] != r@[j],
    {
        legal_moves(&self.board)
    }

    /// Play `m` if it is legal in the current position: the board advances
    /// and the history grows by one entry. An illegal move is rejected and
    /// changes nothing.
    pub fn try_play(&mut self, m: Move) -> (r: bool)
        requires
            old(self).wf(),
            old(self).board.halfmove_clock < u64::MAX,
            old(self).board.fullmove_number < u64::MAX,
        ensures
            final(self).wf(),
            r == legal(old(self).board@, m),
            r ==> final(self).board@ == apply_spec(old(self).board@, m),
            r ==> final(self).history@.len() == old(self).history@.len() + 1,
            r ==> final(self).history@[old(self).history@.len() as int].0@ == old(self).board@,
            !r ==> final(self).board@ == old(self).board@ && final(self).history@ == old(
                self,
            ).history@,
    {
        if is_legal(&self.board, m) {
            let snap = self.board.duplicate();
            let u = self.board.make_move(m);
            self.history.push((snap, u));
            proof {
                assert forall|i: int| 0 <= i < self.history@.len() implies #[trigger] self.entry_ok(
                    i,
                ) by {
                    if i < self.history@.len() - 1 {
                        assert(old(self).entry_ok(i));
                    }
                }
            }
            true
        } else {
            false
        }
    }

    /// Undo the most recent move, if any: the board returns to exactly the
    /// position it was played from, and the history shrinks by one.
    pub fn undo_last(&mut self) -> (r: bool)
        requires
            old(self).wf(),
        ensures
            final(self).wf(),
            r == (old(self).history@.len() > 0),
            r ==> final(self).board@ == old(self).history@[old(self).history@.len() - 1].0@
                && final(self).history@ == old(self).history@.drop_last(),
            !r ==> final(self).board@ == old(self).board@ && final(self).history@ == old(
                self,
            ).history@,
    {
        proof {
            if old(self).history@.len() > 0 {
                assert(old(self).entry_ok(old(self).history@.len() - 1));
            }
        }
        match self.history.pop() {
            Some((snap, u)) => {
                proof {
                    lemma_apply_then_undo(snap@, u.mv);
                }
                self.board.unmake_move(u);
                proof {
                    assert(self.board@ == snap@);
                    assert forall|i: int| 0 <= i < self.history@.len() implies
                        #[trigger] self.entry_ok(i) by {
                        assert(old(self).entry_ok(i));
                    }
                }
                true
            },
            None => false,
        }
    }

    /// How many times the current position (placement, side to move,
    /// rights, en-passant target) has already occurred in the history.
    /// A result of 2 means the current occurrence is the third.
    pub fn repetition_count(&self) -> (n: usize)
        requires
            self.wf(),
        ensures
            n == reps_in(self.history@, self.board@),
    {
        let mut n: usize = 0;
        let mut i: usize = 0;
        let len = self.history.len();
        while i < len
            invariant
                self.wf(),
                i <= len,
                len == self.history@.len(),
                n <= i,
                n == reps_in(self.history@.take(i as int), self.board@),
            decreases len - i,
        {
            proof {
                assert(self.entry_ok(i as int));
            }
            let same = same_position_ex(&self.history[i].0, &self.board);
            proof {
                assert(self.history@.take(i as int + 1).drop_last() =~= self.history@.take(
                    i as int,
                ));
                assert(self.history@.take(i as int + 1).last() == self.history@[i as int]);
            }
            if same {
                n = n + 1;
            }
            i = i + 1;
        }
        proof {
            assert(self.history@.take(len as int) =~= self.history@);
        }
        n
    }

    /// Whether the current position is at least a third occurrence: the
    /// threefold-repetition draw condition the caller may claim.
    pub fn threefold_repetition(&self) -> (r: bool)
        requires
            self.wf(),
        ensures
            r == (reps_in(self.history@, self.board@) >= 2),
    {
        self.repetition_count() >= 2
    }
}

/// Executable test of [`same_position`].
pub fn same_position_ex(a: &Board, b: &Board) -> (r: bool)
    requires
        a.wf(),
        b.wf(),
    ensures
        r == same_position(a@, b@),
{
    let mut i: usize = 0;
    while i < 64
        invariant
            a.wf(),
            b.wf(),
            i <= 64,
            forall|k: int| 0 <= k < i ==> a@.squares[k] == b@.squares[k],
        decreases 64 - i,
    {
        let eq_here = match (a.squares[i], b.squares[i]) {
            (None, None) => true,
            (Some((sa, pa)), Some((sb, pb))) => side_eq(sa, sb) && piece_eq(pa, pb),
            _ => false,
        };
        if !eq_here {
            return false;
        }
        i = i + 1;
    }
    proof {
        assert(a@.squares =~= b@.squares);
    }
    let turn_eq = side_eq(a.turn, b.turn);
    let rights_eq = a.rights.white_kingside == b.rights.white_kingside
        && a.rights.white_queenside == b.rights.white_queenside && a.rights.black_kingside
        == b.rights.black_kingside && a.rights.black_queenside == b.rights.black_queenside;
    let ep_eq = match (a.ep_target, b.ep_target) {
        (None, None) => true,
        (Some(x), Some(y)) => x.0 == y.0,
        _ => false,
    };
    turn_eq && rights_eq && ep_eq
}

} // verus!
