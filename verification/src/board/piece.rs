//! Piece kinds and the two sides.

use vstd::prelude::*;

verus! {

/// The kind of a chess piece; identity only, no color or position.
#[derive(Debug, Clone, Copy, PartialEq, Eq, Structural)]
pub enum Piece {
    Pawn,
    Knight,
    Bishop,
    Rook,
    Queen,
    King,
}

/// One of the two sides; exactly one side is to move in any position.
#[derive(Debug, Clone, Copy, PartialEq, Eq, Structural)]
pub enum Side {
    White,
    Black,
}

/// The opposing side.
pub open spec fn other(s: Side) -> Side {
    match s {
        Side::White => Side::Black,
        Side::Black => Side::White,
    }
}

/// Executable counterpart of [`other`].
pub fn opposite(s: Side) -> (r: Side)
    ensures
        r == other(s),
{
    match s {
        Side::White => Side::Black,
        Side::Black => Side::White,
    }
}

/// Direction a pawn of side `s` advances along ranks.
pub open spec fn pawn_dir(s: Side) -> int {
    match s {
        Side::White => 1,
        Side::Black => -1,
    }
}

/// Rank on which pawns of side `s` start (and may double-push from).
pub open spec fn pawn_start_rank(s: Side) -> int {
    match s {
        Side::White => 1,
        Side::Black => 6,
    }
}

/// Rank on which pawns of side `s` promote.
pub open spec fn promo_rank(s: Side) -> int {
    match s {
        Side::White => 7,
        Side::Black => 0,
    }
}

/// Rank holding the king and rooks of side `s` at the start of a game.
pub open spec fn home_rank(s: Side) -> int {
    match s {
        Side::White => 0,
        Side::Black => 7,
    }
}

} // verus!
