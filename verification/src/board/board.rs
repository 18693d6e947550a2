//! The full position: piece placement plus side to move, castling rights,
//! en-passant target, and move clocks.

use vstd::prelude::*;
use vstd::pervasive::VecAdditionalExecFns;
use crate::board::piece::{Piece, Side};
use crate::board::square::Square;

verus! {

/// The four castling permissions, tracked explicitly because they depend
/// on history (whether king or rook ever moved), not on placement alone.
#[derive(Debug, Clone, Copy, PartialEq, Eq, Structural)]
pub struct CastlingRights {
    pub white_kingside: bool,
    pub white_queenside: bool,
    pub black_kingside: bool,
    pub black_queenside: bool,
}

/// Mathematical model of a position: one entry per square, plus the
/// non-placement state.
#[verifier::ext_equal]
pub ghost struct BoardView {
    pub squares: Seq<Option<(Side, Piece)>>,
    pub turn: Side,
    pub rights: CastlingRights,
    pub ep: Option<int>,
    pub halfmove: int,
    pub fullmove: int,
}

impl BoardView {
    /// A well-formed position: 64 squares, the en-passant target (when
    /// present) on the board, and clocks that a machine word can hold.
    pub open spec fn wf(self) -> bool {
        &&& self.squares.len() == 64
        &&& match self.ep {
            Some(t) => 0 <= t < 64,
            None => true,
        }
        &&& 0 <= self.halfmove <= u64::MAX
        &&& 0 <= self.fullmove <= u64::MAX
    }
}

/// A chess position. Only ever transitions through move application.
#[derive(Debug, Clone, PartialEq)]
pub struct Board {
    /// Occupant of each of the 64 squares.
    pub squares: Vec<Option<(Side, Piece)>>,
    /// The side to move.
    pub turn: Side,
    /// Castling permissions still available.
    pub rights: CastlingRights,
    /// Square a pawn skipped over on the immediately preceding double push.
    pub ep_target: Option<Square>,
    /// Plies since the last capture or pawn move.
    pub halfmove_clock: u64,
    /// Move number, starting at 1, incremented after Black moves.
    pub fullmove_number: u64,
}

impl View for Board {
    type V = BoardView;

    open spec fn view(&self) -> BoardView {
        BoardView {
            squares: self.squares@,
            turn: self.turn,
            rights: self.rights,
            ep: match self.ep_target {
                Some(sq) => Some(sq.0 as int),
                None => None,
            },
            halfmove: self.halfmove_clock as int,
            fullmove: self.fullmove_number as int,
        }
    }
}

impl Board {
    /// A representation the rest of the engine can rely on.
    pub open spec fn wf(self) -> bool {
        self@.wf()
    }

    /// A board with no pieces, White to move, no castling rights.
    pub fn empty() -> (r: Board)
        ensures
            r.wf(),
            forall|i: int| 0 <= i < 64 ==> r@.squares[i] is None,
            r@.turn == Side::White,
            r@.rights == no_rights(),
            r@.ep is None,
            r@.halfmove == 0,
            r@.fullmove == 1,
    {
        Board {
            squares: vec![None; 64],
            turn: Side::White,
            rights: CastlingRights {
                white_kingside: false,
                white_queenside: false,
                black_kingside: false,
                black_queenside: false,
            },
            ep_target: None,
            halfmove_clock: 0,
            fullmove_number: 1,
        }
    }

    /// Put `piece` of `side` on `sq`, replacing any occupant. Intended for
    /// setting up positions; play itself goes through move application.
    pub fn put(&mut self, sq: Square, side: Side, piece: Piece)
        requires
            old(self).wf(),
            sq.valid(),
        ensures
            final(self)@ == (BoardView {
                squares: old(self)@.squares.update(sq.0 as int, Some((side, piece))),
                ..old(self)@
            }),
            final(self).wf(),
    {
        self.squares.set(sq.0, Some((side, piece)));
    }

    /// The occupant of `sq`.
    pub fn occupant(&self, sq: Square) -> (r: Option<(Side, Piece)>)
        requires
            self.wf(),
            sq.valid(),
        ensures
            r == self@.squares[sq.0 as int],
    {
        self.squares[sq.0]
    }

    /// A field-for-field copy with the same model, usable as a scratch
    /// board for trying a move out.
    pub fn duplicate(&self) -> (r: Board)
        requires
            self.wf(),
        ensures
            r@ == self@,
            r.wf(),
    {
        let mut sq: Vec<Option<(Side, Piece)>> = Vec::new();
        let mut i: usize = 0;
        while i < 64
            invariant
                i <= 64,
                self.wf(),
                sq@ =~= self.squares@.take(i as int),
            decreases 64 - i,
        {
            sq.push(self.squares[i]);
            i = i + 1;
        }
        proof {
            assert(sq@ =~= self.squares@);
        }
        let r = Board {
            squares: sq,
            turn: self.turn,
            rights: self.rights,
            ep_target: self.ep_target,
            halfmove_clock: self.halfmove_clock,
            fullmove_number: self.fullmove_number,
        };
        proof {
            assert(r@ =~= self@);
        }
        r
    }

    /// The standard starting position.
    pub fn start() -> (r: Board)
        ensures
            r@ == start_view(),
            r.wf(),
    {
        let mut b = Board {
            squares: vec![None; 64],
            turn: Side::White,
            rights: CastlingRights {
                white_kingside: true,
                white_queenside: true,
                black_kingside: true,
                black_queenside: true,
            },
            ep_target: None,
            halfmove_clock: 0,
            fullmove_number: 1,
        };
        let mut f: usize = 0;
        while f < 8
            invariant
                f <= 8,
                b.squares@.len() == 64,
                b.turn == Side::White,
                b.rights == all_rights(),
                b.ep_target is None,
                b.halfmove_clock == 0,
                b.fullmove_number == 1,
                forall|i: int| 0 <= i < 64 ==> b@.squares[i] == (if file_filled(i, f as int) {
                    start_occupant(i)
                } else {
                    Option::<(Side, Piece)>::None
                }),
            decreases 8 - f,
        {
            set_start_file(&mut b, f);
            f = f + 1;
        }
        proof {
            assert(b@.squares =~= start_view().squares);
            assert(b@ =~= start_view());
        }
        b
    }
}

/// No castling permissions.
pub open spec fn no_rights() -> CastlingRights {
    CastlingRights {
        white_kingside: false,
        white_queenside: false,
        black_kingside: false,
        black_queenside: false,
    }
}

/// All four castling permissions.
pub open spec fn all_rights() -> CastlingRights {
    CastlingRights {
        white_kingside: true,
        white_queenside: true,
        black_kingside: true,
        black_queenside: true,
    }
}

/// Back-rank piece order at the start of a game, by file.
pub open spec fn back_rank_piece(file: int) -> Piece {
    if file == 0 || file == 7 {
        Piece::Rook
    } else if file == 1 || file == 6 {
        Piece::Knight
    } else if file == 2 || file == 5 {
        Piece::Bishop
    } else if file == 3 {
        Piece::Queen
    } else {
        Piece::King
    }
}

/// Occupant of square `i` in the standard starting position.
pub open spec fn start_occupant(i: int) -> Option<(Side, Piece)> {
    let r = i / 8;
    let f = i % 8;
    if r == 0 {
        Some((Side::White, back_rank_piece(f)))
    } else if r == 1 {
        Some((Side::White, Piece::Pawn))
    } else if r == 6 {
        Some((Side::Black, Piece::Pawn))
    } else if r == 7 {
        Some((Side::Black, back_rank_piece(f)))
    } else {
        None
    }
}

/// Whether square `i` lies on a file below `f` (used while the starting
/// position is being filled file by file).
pub open spec fn file_filled(i: int, f: int) -> bool {
    i % 8 < f
}

/// The standard starting position, as a model.
pub open spec fn start_view() -> BoardView {
    BoardView {
        squares: Seq::new(64, |i: int| start_occupant(i)),
        turn: Side::White,
        rights: all_rights(),
        ep: None,
        halfmove: 0,
        fullmove: 1,
    }
}

/// Fill one file of the starting position: the two back-rank pieces and
/// the two pawns of that file.
fn set_start_file(b: &mut Board, f: usize)
    requires
        f < 8,
        old(b)@.squares.len() == 64,
    ensures
        final(b)@.squares =~= old(b)@.squares
            .update(f as int, start_occupant(f as int))
            .update(8 + f as int, start_occupant(8 + f as int))
            .update(48 + f as int, start_occupant(48 + f as int))
            .update(56 + f as int, start_occupant(56 + f as int)),
        final(b).turn == old(b).turn,
        final(b).rights == old(b).rights,
        final(b).ep_target == old(b).ep_target,
        final(b).halfmove_clock == old(b).halfmove_clock,
        final(b).fullmove_number == old(b).fullmove_number,
{
    let back = back_rank_exec(f);
    b.squares.set(f, Some((Side::White, back)));
    b.squares.set(8 + f, Some((Side::White, Piece::Pawn)));
    b.squares.set(48 + f, Some((Side::Black, Piece::Pawn)));
    b.squares.set(56 + f, Some((Side::Black, back)));
    proof {
        assert(start_occupant(f as int) == Some((Side::White, back_rank_piece(f as int))));
        assert(start_occupant(8 + f as int) == Some((Side::White, Piece::Pawn)));
        assert(start_occupant(48 + f as int) == Some((Side::Black, Piece::Pawn)));
        assert(start_occupant(56 + f as int) == Some((Side::Black, back_rank_piece(f as int))));
    }
}

/// Executable back-rank piece order.
fn back_rank_exec(file: usize) -> (r: Piece)
    requires
        file < 8,
    ensures
        r == back_rank_piece(file as int),
{
    if file == 0 || file == 7 {
        Piece::Rook
    } else if file == 1 || file == 6 {
        Piece::Knight
    } else if file == 2 || file == 5 {
        Piece::Bishop
    } else if file == 3 {
        Piece::Queen
    } else {
        Piece::King
    }
}

} // verus!
