//! Moves: classification, pseudo-legality, and applying a move to a board
//! (with enough recorded state to undo it exactly).

use vstd::prelude::*;
use vstd::pervasive::VecAdditionalExecFns;
use crate::attacks::{
    attacked, diag_line, df, dr, iabs, king_geom, knight_geom, ortho_line, path_clear, piece_eq,
    sliding_line,
};
use crate::board::board::{Board, BoardView, CastlingRights};
use crate::board::piece::{
    home_rank, other, pawn_dir, pawn_start_rank, promo_rank, Piece, Side,
};
use crate::board::square::{file_of, on_board, rank_of, Square};

verus! {

/// How a move transforms the position; derived from origin, destination,
/// and the board, never set independently.
#[derive(Debug, Clone, Copy, PartialEq, Eq, Structural)]
pub enum MoveKind {
    Quiet,
    Capture,
    DoublePush,
    EnPassant,
    CastleKingside,
    CastleQueenside,
}

/// A move: origin, destination, optional promotion piece, and its
/// (derived) classification.
#[derive(Debug, Clone, Copy, PartialEq, Eq)]
pub struct Move {
    pub from: Square,
    pub to: Square,
    pub promotion: Option<Piece>,
    pub kind: MoveKind,
}

/// The piece kind standing on `f` (immaterial default when empty).
pub open spec fn piece_at(v: BoardView, f: int) -> Piece {
    match v.squares[f] {
        Some(o) => o.1,
        None => Piece::Pawn,
    }
}

/// The side owning the piece on `f` (immaterial default when empty).
pub open spec fn side_at(v: BoardView, f: int) -> Side {
    match v.squares[f] {
        Some(o) => o.0,
        None => Side::White,
    }
}

/// The classification a move from `f` to `t` must carry in position `v`
/// (assuming the mover's piece stands on `f`).
pub open spec fn classify(v: BoardView, f: int, t: int) -> MoveKind {
    if piece_at(v, f) == Piece::King && iabs(df(f, t)) == 2 {
        if df(f, t) == 2 {
            MoveKind::CastleKingside
        } else {
            MoveKind::CastleQueenside
        }
    } else if piece_at(v, f) == Piece::Pawn && v.ep == Some(t) && iabs(df(f, t)) == 1
        && v.squares[t] is None {
        MoveKind::EnPassant
    } else if piece_at(v, f) == Piece::Pawn && iabs(dr(f, t)) == 2 {
        MoveKind::DoublePush
    } else if v.squares[t] is Some {
        MoveKind::Capture
    } else {
        MoveKind::Quiet
    }
}

/// Pawn movement (pushes and captures) from `f` to `t` for the side to move.
pub open spec fn pawn_move_ok(v: BoardView, f: int, t: int) -> bool {
    let s = v.turn;
    let d = pawn_dir(s);
    ||| (df(f, t) == 0 && dr(f, t) == d && v.squares[t] is None)
    ||| (df(f, t) == 0 && dr(f, t) == 2 * d && rank_of(f) == pawn_start_rank(s) && v.squares[f + 8
        * d] is None && v.squares[t] is None)
    ||| (iabs(df(f, t)) == 1 && dr(f, t) == d && ((v.squares[t] is Some && side_at(v, t) == other(
        s,
    )) || v.ep == Some(t)))
}

/// The kingside castling permission of side `s`.
pub open spec fn kingside_right(v: BoardView, s: Side) -> bool {
    match s {
        Side::White => v.rights.white_kingside,
        Side::Black => v.rights.black_kingside,
    }
}

/// The queenside castling permission of side `s`.
pub open spec fn queenside_right(v: BoardView, s: Side) -> bool {
    match s {
        Side::White => v.rights.white_queenside,
        Side::Black => v.rights.black_queenside,
    }
}

/// Castling from `f` to `t` for the side to move: permission still held,
/// rook on its home square, the squares between king and rook empty, and
/// neither the king's square nor any square it crosses or lands on
/// attacked by the enemy.
pub open spec fn castle_ok(v: BoardView, f: int, t: int) -> bool {
    let s = v.turn;
    let base = home_rank(s) * 8;
    &&& f == base + 4
    &&& {
        ||| (t == base + 6 && kingside_right(v, s) && v.squares[base + 5] is None && v.squares[base
            + 6] is None && v.squares[base + 7] == Some((s, Piece::Rook)) && !attacked(
            v,
            base + 4,
            other(s),
        ) && !attacked(v, base + 5, other(s)) && !attacked(v, base + 6, other(s)))
        ||| (t == base + 2 && queenside_right(v, s) && v.squares[base + 1] is None && v.squares[base
            + 2] is None && v.squares[base + 3] is None && v.squares[base] == Some(
            (s, Piece::Rook),
        ) && !attacked(v, base + 4, other(s)) && !attacked(v, base + 3, other(s)) && !attacked(
            v,
            base + 2,
            other(s),
        ))
    }
}

/// Promotion choice consistent with the move: mandatory (and restricted to
/// knight, bishop, rook, queen) exactly when a pawn reaches the last rank.
pub open spec fn promo_ok(v: BoardView, m: Move) -> bool {
    let f = m.from.0 as int;
    let t = m.to.0 as int;
    if piece_at(v, f) == Piece::Pawn && rank_of(t) == promo_rank(v.turn) {
        match m.promotion {
            Some(pp) => pp == Piece::Knight || pp == Piece::Bishop || pp == Piece::Rook || pp
                == Piece::Queen,
            None => false,
        }
    } else {
        m.promotion is None
    }
}

/// A pseudo-legal move: obeys piece movement patterns and occupancy, with a
/// consistent classification and promotion choice, but may still leave the
/// mover's own king in check.
pub open spec fn pseudo_legal(v: BoardView, m: Move) -> bool {
    let f = m.from.0 as int;
    let t = m.to.0 as int;
    &&& on_board(f)
    &&& on_board(t)
    &&& f != t
    &&& v.squares[f] is Some
    &&& side_at(v, f) == v.turn
    &&& !(v.squares[t] is Some && side_at(v, t) == v.turn)
    &&& match piece_at(v, f) {
        Piece::Pawn => pawn_move_ok(v, f, t),
        Piece::Knight => knight_geom(f, t),
        Piece::Bishop => diag_line(f, t) && path_clear(v.squares, f, t),
        Piece::Rook => ortho_line(f, t) && path_clear(v.squares, f, t),
        Piece::Queen => sliding_line(f, t) && path_clear(v.squares, f, t),
        Piece::King => king_geom(f, t) || castle_ok(v, f, t),
    }
    &&& promo_ok(v, m)
    &&& m.kind == classify(v, f, t)
}

/// Square of the pawn removed by an en-passant capture from `f` to `t`:
/// same rank as the origin, same file as the destination.
pub open spec fn ep_victim_sq(f: int, t: int) -> int {
    rank_of(f) * 8 + file_of(t)
}

/// The piece that ends up on the destination square: the promotion piece
/// if one was chosen, otherwise the moving piece itself.
pub open spec fn moved_piece(v: BoardView, m: Move) -> Piece {
    match m.promotion {
        Some(pp) => pp,
        None => piece_at(v, m.from.0 as int),
    }
}

/// Piece placement after applying `m` to `v`.
pub open spec fn apply_squares(v: BoardView, m: Move) -> Seq<Option<(Side, Piece)>> {
    let f = m.from.0 as int;
    let t = m.to.0 as int;
    let s = v.turn;
    let base = v.squares.update(f, None).update(t, Some((s, moved_piece(v, m))));
    match m.kind {
        MoveKind::EnPassant => base.update(ep_victim_sq(f, t), None),
        MoveKind::CastleKingside => base.update(home_rank(s) * 8 + 7, None).update(
            home_rank(s) * 8 + 5,
            Some((s, Piece::Rook)),
        ),
        MoveKind::CastleQueenside => base.update(home_rank(s) * 8, None).update(
            home_rank(s) * 8 + 3,
            Some((s, Piece::Rook)),
        ),
        _ => base,
    }
}

/// Castling rights after a move: a side's right dies the moment its king
/// moves, or the relevant rook moves or is captured.
pub open spec fn rights_after(v: BoardView, m: Move) -> CastlingRights {
    let f = m.from.0 as int;
    let t = m.to.0 as int;
    CastlingRights {
        white_kingside: v.rights.white_kingside && f != 4 && f != 7 && t != 7,
        white_queenside: v.rights.white_queenside && f != 4 && f != 0 && t != 0,
        black_kingside: v.rights.black_kingside && f != 60 && f != 63 && t != 63,
        black_queenside: v.rights.black_queenside && f != 60 && f != 56 && t != 56,
    }
}

/// Whether the move removed an enemy piece.
pub open spec fn is_capture_kind(k: MoveKind) -> bool {
    k == MoveKind::Capture || k == MoveKind::EnPassant
}

/// The position after applying `m` to `v`: placement updated, rights
/// revoked as due, en-passant target set only by a double push, halfmove
/// clock reset on pawn moves and captures, fullmove number advanced after
/// Black's move, side to move toggled.
pub open spec fn apply_spec(v: BoardView, m: Move) -> BoardView {
    let f = m.from.0 as int;
    BoardView {
        squares: apply_squares(v, m),
        turn: other(v.turn),
        rights: rights_after(v, m),
        ep: if m.kind == MoveKind::DoublePush {
            Some(f + 8 * pawn_dir(v.turn))
        } else {
            None
        },
        halfmove: if piece_at(v, f) == Piece::Pawn || is_capture_kind(m.kind) {
            0
        } else {
            v.halfmove + 1
        },
        fullmove: if v.turn == Side::Black {
            v.fullmove + 1
        } else {
            v.fullmove
        },
    }
}

/// The piece a move removed from the board, if any: the occupant of the
/// destination on a capture, the passed pawn on an en-passant capture.
pub open spec fn captured_of(v: BoardView, m: Move) -> Option<(Side, Piece)> {
    let f = m.from.0 as int;
    let t = m.to.0 as int;
    if m.kind == MoveKind::EnPassant {
        v.squares[ep_victim_sq(f, t)]
    } else if m.kind == MoveKind::Capture {
        v.squares[t]
    } else {
        None
    }
}

/// Everything needed to reverse exactly one applied move.
#[derive(Debug, Clone, Copy, PartialEq, Eq)]
pub struct UndoInfo {
    /// The move that was applied.
    pub mv: Move,
    /// The piece the move removed, if any.
    pub captured: Option<(Side, Piece)>,
    /// Castling rights before the move.
    pub prior_rights: CastlingRights,
    /// En-passant target before the move.
    pub prior_ep: Option<Square>,
    /// Halfmove clock before the move.
    pub prior_halfmove: u64,
}

/// The undo record that applying `m` to `v` must produce.
pub open spec fn undo_for(v: BoardView, m: Move) -> UndoInfo {
    UndoInfo {
        mv: m,
        captured: captured_of(v, m),
        prior_rights: v.rights,
        prior_ep: match v.ep {
            Some(t) => Some(Square(t as usize)),
            None => None,
        },
        prior_halfmove: v.halfmove as u64,
    }
}

/// Piece placement after undoing `u` in position `v` (which must have
/// arisen by applying `u.mv`).
pub open spec fn undo_squares(v: BoardView, u: UndoInfo) -> Seq<Option<(Side, Piece)>> {
    let f = u.mv.from.0 as int;
    let t = u.mv.to.0 as int;
    let mover = other(v.turn);
    let orig = if u.mv.promotion is Some {
        Piece::Pawn
    } else {
        piece_at(v, t)
    };
    let base = v.squares.update(
        t,
        if u.mv.kind == MoveKind::Capture {
            u.captured
        } else {
            None
        },
    ).update(f, Some((mover, orig)));
    match u.mv.kind {
        MoveKind::EnPassant => base.update(ep_victim_sq(f, t), u.captured),
        MoveKind::CastleKingside => base.update(home_rank(mover) * 8 + 5, None).update(
            home_rank(mover) * 8 + 7,
            Some((mover, Piece::Rook)),
        ),
        MoveKind::CastleQueenside => base.update(home_rank(mover) * 8 + 3, None).update(
            home_rank(mover) * 8,
            Some((mover, Piece::Rook)),
        ),
        _ => base,
    }
}

/// The position after undoing `u` in `v`: the moved piece returns to its
/// origin (a promoted piece reverts to a pawn), any captured piece is
/// restored, and the recorded rights, target, and clock come back.
pub open spec fn undo_spec(v: BoardView, u: UndoInfo) -> BoardView {
    BoardView {
        squares: undo_squares(v, u),
        turn: other(v.turn),
        rights: u.prior_rights,
        ep: match u.prior_ep {
            Some(sq) => Some(sq.0 as int),
            None => None,
        },
        halfmove: u.prior_halfmove as int,
        fullmove: if v.turn == Side::White {
            v.fullmove - 1
        } else {
            v.fullmove
        },
    }
}

/// The en-passant victim square lies on the board, on the origin's rank
/// and the destination's file, and differs from both origin and
/// destination of a pawn capture.
pub proof fn lemma_ep_victim(f: int, t: int)
    requires
        on_board(f),
        on_board(t),
    ensures
        on_board(ep_victim_sq(f, t)),
        rank_of(ep_victim_sq(f, t)) == rank_of(f),
        file_of(ep_victim_sq(f, t)) == file_of(t),
{
    vstd::arithmetic::div_mod::lemma_fundamental_div_mod(f, 8);
    vstd::arithmetic::div_mod::lemma_mod_bound(f, 8);
    vstd::arithmetic::div_mod::lemma_fundamental_div_mod(t, 8);
    vstd::arithmetic::div_mod::lemma_mod_bound(t, 8);
    vstd::arithmetic::div_mod::lemma_fundamental_div_mod_converse(
        rank_of(f) * 8 + file_of(t),
        8,
        rank_of(f),
        file_of(t),
    );
}

/// Applying a pseudo-legal move preserves well-formedness.
pub proof fn lemma_apply_wf(v: BoardView, m: Move)
    requires
        v.wf(),
        pseudo_legal(v, m),
        v.halfmove < u64::MAX,
        v.fullmove < u64::MAX,
    ensures
        apply_spec(v, m).wf(),
{
    let f = m.from.0 as int;
    if m.kind == MoveKind::DoublePush {
        assert(piece_at(v, f) == Piece::Pawn && iabs(dr(f, m.to.0 as int)) == 2);
        vstd::arithmetic::div_mod::lemma_fundamental_div_mod(f, 8);
        vstd::arithmetic::div_mod::lemma_mod_bound(f, 8);
        assert(rank_of(f) == pawn_start_rank(v.turn));
    }
}

/// Applying a pseudo-legal move and then undoing it with the record the
/// application produced restores the position exactly: placement, side to
/// move, castling rights, en-passant target, and both clocks.
pub proof fn lemma_apply_then_undo(v: BoardView, m: Move)
    requires
        v.wf(),
        pseudo_legal(v, m),
    ensures
        undo_spec(apply_spec(v, m), undo_for(v, m)) == v,
{
    let f = m.from.0 as int;
    let t = m.to.0 as int;
    let s = v.turn;
    let u = undo_for(v, m);
    let w = apply_spec(v, m);
    let r = undo_spec(w, u);
    assert(r.turn == v.turn);
    assert(r.rights == v.rights);
    assert(r.ep == v.ep);
    assert(r.halfmove == v.halfmove);
    assert(r.fullmove == v.fullmove);
    let vict = ep_victim_sq(f, t);
    lemma_ep_victim(f, t);
    if m.kind == MoveKind::EnPassant {
        assert(iabs(df(f, t)) == 1 && dr(f, t) == pawn_dir(s) && v.squares[t] is None);
        assert(vict != f && vict != t);
    }
    if m.kind == MoveKind::CastleKingside || m.kind == MoveKind::CastleQueenside {
        assert(piece_at(v, f) == Piece::King && iabs(df(f, t)) == 2);
        assert(!king_geom(f, t));
        assert(castle_ok(v, f, t));
    }
    if m.promotion is Some {
        assert(piece_at(v, f) == Piece::Pawn);
    }
    assert forall|i: int| 0 <= i < 64 implies r.squares[i] == v.squares[i] by {
        lemma_ep_victim(f, t);
    }
    assert(r.squares =~= v.squares);
    assert(r =~= v);
}

/// Executable en-passant victim square.
pub fn ep_victim_ex(f: usize, t: usize) -> (r: usize)
    requires
        f < 64,
        t < 64,
    ensures
        r == ep_victim_sq(f as int, t as int),
        r < 64,
{
    proof {
        lemma_ep_victim(f as int, t as int);
    }
    (f / 8) * 8 + t % 8
}

/// Executable first square of the home rank of `s`.
pub fn home_base_ex(s: Side) -> (r: usize)
    ensures
        r == home_rank(s) * 8,
{
    match s {
        Side::White => 0,
        Side::Black => 56,
    }
}

impl Board {
    /// Apply a pseudo-legal move in place, returning what is needed to
    /// undo it. The clock bounds are machine limits only.
    pub fn make_move(&mut self, m: Move) -> (u: UndoInfo)
        requires
            old(self).wf(),
            pseudo_legal(old(self)@, m),
            old(self).halfmove_clock < u64::MAX,
            old(self).fullmove_number < u64::MAX,
        ensures
            final(self)@ == apply_spec(old(self)@, m),
            final(self).wf(),
            u == undo_for(old(self)@, m),
    {
        proof {
            lemma_apply_wf(self@, m);
        }
        let f = m.from.0;
        let t = m.to.0;
        let mover = self.turn;
        let p = match self.squares[f] {
            Some((_, pp)) => pp,
            None => Piece::Pawn,
        };
        let captured: Option<(Side, Piece)> = match m.kind {
            MoveKind::EnPassant => self.squares[ep_victim_ex(f, t)],
            MoveKind::Capture => self.squares[t],
            _ => None,
        };
        let u = UndoInfo {
            mv: m,
            captured,
            prior_rights: self.rights,
            prior_ep: self.ep_target,
            prior_halfmove: self.halfmove_clock,
        };
        let placed = match m.promotion {
            Some(pp) => pp,
            None => p,
        };
        self.squares.set(f, None);
        self.squares.set(t, Some((mover, placed)));
        match m.kind {
            MoveKind::EnPassant => {
                self.squares.set(ep_victim_ex(f, t), None);
            },
            MoveKind::CastleKingside => {
                let hb = home_base_ex(mover);
                self.squares.set(hb + 7, None);
                self.squares.set(hb + 5, Some((mover, Piece::Rook)));
            },
            MoveKind::CastleQueenside => {
                let hb = home_base_ex(mover);
                self.squares.set(hb, None);
                self.squares.set(hb + 3, Some((mover, Piece::Rook)));
            },
            _ => {},
        }
        self.rights = CastlingRights {
            white_kingside: self.rights.white_kingside && f != 4 && f != 7 && t != 7,
            white_queenside: self.rights.white_queenside && f != 4 && f != 0 && t != 0,
            black_kingside: self.rights.black_kingside && f != 60 && f != 63 && t != 63,
            black_queenside: self.rights.black_queenside && f != 60 && f != 56 && t != 56,
        };
        self.ep_target = if matches!(m.kind, MoveKind::DoublePush) {
            proof {
                vstd::arithmetic::div_mod::lemma_fundamental_div_mod(f as int, 8);
                vstd::arithmetic::div_mod::lemma_mod_bound(f as int, 8);
            }
            match mover {
                Side::White => Some(Square(f + 8)),
                Side::Black => Some(Square(f - 8)),
            }
        } else {
            None
        };
        self.halfmove_clock = if piece_eq(p, Piece::Pawn) || matches!(
            m.kind,
            MoveKind::Capture | MoveKind::EnPassant,
        ) {
            0
        } else {
            self.halfmove_clock + 1
        };
        self.fullmove_number = match mover {
            Side::Black => self.fullmove_number + 1,
            Side::White => self.fullmove_number,
        };
        self.turn = match mover {
            Side::White => Side::Black,
            Side::Black => Side::White,
        };
        proof {
            assert(self@.squares =~= apply_squares(old(self)@, m));
            assert(self@ =~= apply_spec(old(self)@, m));
        }
        u
    }

    /// Reverse the last applied move in place, given the record its
    /// application produced.
    pub fn unmake_move(&mut self, u: UndoInfo)
        requires
            old(self).wf(),
            u.mv.from.0 < 64,
            u.mv.to.0 < 64,
            match u.prior_ep {
                Some(sq) => sq.0 < 64,
                None => true,
            },
            old(self).turn == Side::White ==> old(self).fullmove_number >= 1,
        ensures
            final(self)@ == undo_spec(old(self)@, u),
            final(self).wf(),
    {
        let f = u.mv.from.0;
        let t = u.mv.to.0;
        let mover = match self.turn {
            Side::White => Side::Black,
            Side::Black => Side::White,
        };
        let orig = if u.mv.promotion.is_some() {
            Piece::Pawn
        } else {
            match self.squares[t] {
                Some((_, pp)) => pp,
                None => Piece::Pawn,
            }
        };
        self.squares.set(
            t,
            if matches!(u.mv.kind, MoveKind::Capture) {
                u.captured
            } else {
                None
            },
        );
        self.squares.set(f, Some((mover, orig)));
        match u.mv.kind {
            MoveKind::EnPassant => {
                self.squares.set(ep_victim_ex(f, t), u.captured);
            },
            MoveKind::CastleKingside => {
                let hb = home_base_ex(mover);
                self.squares.set(hb + 5, None);
                self.squares.set(hb + 7, Some((mover, Piece::Rook)));
            },
            MoveKind::CastleQueenside => {
                let hb = home_base_ex(mover);
                self.squares.set(hb + 3, None);
                self.squares.set(hb, Some((mover, Piece::Rook)));
            },
            _ => {},
        }
        self.rights = u.prior_rights;
        self.ep_target = u.prior_ep;
        self.halfmove_clock = u.prior_halfmove;
        self.fullmove_number = match mover {
            Side::Black => self.fullmove_number - 1,
            Side::White => self.fullmove_number,
        };
        self.turn = mover;
        proof {
            assert(self@.squares =~= undo_squares(old(self)@, u));
            assert(self@ =~= undo_spec(old(self)@, u));
        }
    }
}

} // verus!
