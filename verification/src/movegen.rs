//! Legal move generation: every move the side to move can make without
//! leaving its own king in check, and the checkmate/stalemate verdicts.

use vstd::prelude::*;
use crate::attacks::{attacked, in_check, in_check_ex, piece_eq, side_eq, square_attacked};
use crate::board::board::{Board, BoardView};
use crate::board::piece::{home_rank, other, Piece, Side};
use crate::board::square::Square;
use crate::moves::{
    apply_spec, castle_ok, classify, home_base_ex, kingside_right, pawn_move_ok, pseudo_legal,
    queenside_right, Move, MoveKind,
};

verus! {

/// A legal move: pseudo-legal, and applying it does not leave the mover's
/// own king attacked.
pub open spec fn legal(v: BoardView, m: Move) -> bool {
    pseudo_legal(v, m) && !in_check(apply_spec(v, m), v.turn)
}

/// No legal move exists for the side to move.
pub open spec fn no_legal_moves(v: BoardView) -> bool {
    forall|m: Move| !legal(v, m)
}

/// Every legal move keeps the mover's own king out of check: legality is
/// exactly pseudo-legality plus king safety in the resulting position.
pub proof fn lemma_legal_keeps_king_safe(v: BoardView, m: Move)
    requires
        legal(v, m),
    ensures
        pseudo_legal(v, m),
        !in_check(apply_spec(v, m), v.turn),
{
}

/// Executable classification of a move from `f` to `t`.
pub fn classify_ex(b: &Board, f: usize, t: usize) -> (k: MoveKind)
    requires
        b.wf(),
        f < 64,
        t < 64,
    ensures
        k == classify(b@, f as int, t as int),
{
    let p = match b.squares[f] {
        Some((_, pp)) => pp,
        None => Piece::Pawn,
    };
    let ff = f % 8;
    let tf = t % 8;
    let fr = f / 8;
    let tr = t / 8;
    let adf: usize = if tf >= ff {
        tf - ff
    } else {
        ff - tf
    };
    let adr: usize = if tr >= fr {
        tr - fr
    } else {
        fr - tr
    };
    let ep_here = match b.ep_target {
        Some(sq) => sq.0 == t,
        None => false,
    };
    if piece_eq(p, Piece::King) && adf == 2 {
        if tf > ff {
            MoveKind::CastleKingside
        } else {
            MoveKind::CastleQueenside
        }
    } else if piece_eq(p, Piece::Pawn) && ep_here && adf == 1 && b.squares[t].is_none() {
        MoveKind::EnPassant
    } else if piece_eq(p, Piece::Pawn) && adr == 2 {
        MoveKind::DoublePush
    } else if b.squares[t].is_some() {
        MoveKind::Capture
    } else {
        MoveKind::Quiet
    }
}

/// Executable test of [`pawn_move_ok`].
fn pawn_ok_ex(b: &Board, f: usize, t: usize) -> (r: bool)
    requires
        b.wf(),
        f < 64,
        t < 64,
    ensures
        r == pawn_move_ok(b@, f as int, t as int),
{
    proof {
        vstd::arithmetic::div_mod::lemma_fundamental_div_mod(f as int, 8);
        vstd::arithmetic::div_mod::lemma_mod_bound(f as int, 8);
    }
    let ff = f % 8;
    let tf = t % 8;
    let fr = f / 8;
    let tr = t / 8;
    let adf: usize = if tf >= ff {
        tf - ff
    } else {
        ff - tf
    };
    let ep_here = match b.ep_target {
        Some(sq) => sq.0 == t,
        None => false,
    };
    match b.turn {
        Side::White => {
            let single = tf == ff && tr == fr + 1 && b.squares[t].is_none();
            let double = tf == ff && fr == 1 && tr == 3 && b.squares[f + 8].is_none()
                && b.squares[t].is_none();
            let capture = adf == 1 && tr == fr + 1 && (match b.squares[t] {
                Some((ds, _)) => side_eq(ds, Side::Black),
                None => false,
            } || ep_here);
            single || double || capture
        },
        Side::Black => {
            let single = tf == ff && tr + 1 == fr && b.squares[t].is_none();
            let double = tf == ff && fr == 6 && tr == 4 && b.squares[f - 8].is_none()
                && b.squares[t].is_none();
            let capture = adf == 1 && tr + 1 == fr && (match b.squares[t] {
                Some((ds, _)) => side_eq(ds, Side::White),
                None => false,
            } || ep_here);
            single || double || capture
        },
    }
}

/// Executable test of [`castle_ok`].
fn castle_ok_ex(b: &Board, f: usize, t: usize) -> (r: bool)
    requires
        b.wf(),
        f < 64,
        t < 64,
    ensures
        r == castle_ok(b@, f as int, t as int),
{
    let s = b.turn;
    let base = home_base_ex(s);
    if f != base + 4 {
        return false;
    }
    let right_k = match s {
        Side::White => b.rights.white_kingside,
        Side::Black => b.rights.black_kingside,
    };
    let right_q = match s {
        Side::White => b.rights.white_queenside,
        Side::Black => b.rights.black_queenside,
    };
    let enemy = crate::board::piece::opposite(s);
    if t == base + 6 {
        right_k && b.squares[base + 5].is_none() && b.squares[base + 6].is_none() && (match b
            .squares[base + 7] {
            Some((rs, rp)) => side_eq(rs, s) && piece_eq(rp, Piece::Rook),
            None => false,
        }) && !square_attacked(b, base + 4, enemy) && !square_attacked(b, base + 5, enemy)
            && !square_attacked(b, base + 6, enemy)
    } else if t == base + 2 {
        right_q && b.squares[base + 1].is_none() && b.squares[base + 2].is_none() && b.squares[base
            + 3].is_none() && (match b.squares[base] {
            Some((rs, rp)) => side_eq(rs, s) && piece_eq(rp, Piece::Rook),
            None => false,
        }) && !square_attacked(b, base + 4, enemy) && !square_attacked(b, base + 3, enemy)
            && !square_attacked(b, base + 2, enemy)
    } else {
        false
    }
}

/// Executable test of [`pseudo_legal`].
pub fn is_pseudo_legal(b: &Board, m: Move) -> (r: bool)
    requires
        b.wf(),
    ensures
        r == pseudo_legal(b@, m),
{
    let f = m.from.0;
    let t = m.to.0;
    if f >= 64 || t >= 64 || f == t {
        return false;
    }
    let p = match b.squares[f] {
        Some((ps, pp)) => {
            if !side_eq(ps, b.turn) {
                return false;
            }
            pp
        },
        None => {
            return false;
        },
    };
    match b.squares[t] {
        Some((ds, _)) => {
            if side_eq(ds, b.turn) {
                return false;
            }
        },
        None => {},
    }
    let promo_due = piece_eq(p, Piece::Pawn) && (match b.turn {
        Side::White => t / 8 == 7,
        Side::Black => t / 8 == 0,
    });
    let promo_fine = if promo_due {
        match m.promotion {
            Some(pp) => matches!(pp, Piece::Knight | Piece::Bishop | Piece::Rook | Piece::Queen),
            None => false,
        }
    } else {
        m.promotion.is_none()
    };
    if !promo_fine {
        return false;
    }
    if m.kind != classify_ex(b, f, t) {
        return false;
    }
    match p {
        Piece::Pawn => pawn_ok_ex(b, f, t),
        Piece::King => crate::attacks::attacks_from_ex(b, b.turn, Piece::King, f, t)
            || castle_ok_ex(b, f, t),
        _ => crate::attacks::attacks_from_ex(b, b.turn, p, f, t),
    }
}

/// Executable test of [`legal`]: pseudo-legality, then king safety tried
/// out on a scratch copy. The clock bounds are machine limits only.
pub fn is_legal(b: &Board, m: Move) -> (r: bool)
    requires
        b.wf(),
        b.halfmove_clock < u64::MAX,
        b.fullmove_number < u64::MAX,
    ensures
        r == legal(b@, m),
{
    if !is_pseudo_legal(b, m) {
        return false;
    }
    let mut scratch = b.duplicate();
    let _u = scratch.make_move(m);
    !in_check_ex(&scratch, b.turn)
}

/// Append `c` to `out` exactly when it is legal.
fn push_if_legal(b: &Board, out: &mut Vec<Move>, c: Move)
    requires
        b.wf(),
        b.halfmove_clock < u64::MAX,
        b.fullmove_number < u64::MAX,
    ensures
        final(out)@ == if legal(b@, c) {
            old(out)@.push(c)
        } else {
            old(out)@
        },
{
    if is_legal(b, c) {
        out.push(c);
    }
}

/// All strictly legal moves for the side to move: a move is in the result
/// exactly when it is legal, and no move appears twice. The order is a
/// fixed function of the position. The clock bounds are machine limits
/// only.
pub fn legal_moves(b: &Board) -> (r: Vec<Move>)
    requires
        b.wf(),
        b.halfmove_clock < u64::MAX,
        b.fullmove_number < u64::MAX,
    ensures
        forall|m: Move| #[trigger] r@.contains(m) <==> legal(b@, m),
        forall|i: int, j: int| 0 <= i < j < r@.len() ==> r@[i] != r@[j],
{
    let mut out: Vec<Move> = Vec::new();
    let mut f: usize = 0;
    while f < 64
        invariant
            b.wf(),
            b.halfmove_clock < u64::MAX,
            b.fullmove_number < u64::MAX,
            f <= 64,
            forall|k: int| 0 <= k < out@.len() ==> legal(b@, #[trigger] out@[k]),
            forall|k: int| 0 <= k < out@.len() ==> (#[trigger] out@[k]).from.0 < f,
            forall|m: Move| legal(b@, m) && m.from.0 < f ==> #[trigger] out@.contains(m),
            forall|i: int, j: int| 0 <= i < j < out@.len() ==> out@[i] != out@[j],
        decreases 64 - f,
    {
        let mover_here = match b.squares[f] {
            Some((s, _)) => side_eq(s, b.turn),
            None => false,
        };
        if mover_here {
            let mut t: usize = 0;
            while t < 64
                invariant
                    b.wf(),
                    b.halfmove_clock < u64::MAX,
                    b.fullmove_number < u64::MAX,
                    f < 64,
                    t <= 64,
                    b@.squares[f as int] is Some,
                    crate::moves::side_at(b@, f as int) == b@.turn,
                    forall|k: int| 0 <= k < out@.len() ==> legal(b@, #[trigger] out@[k]),
                    forall|k: int|
                        0 <= k < out@.len() ==> (#[trigger] out@[k]).from.0 < f || ((
                        #[trigger] out@[k]).from.0 == f && out@[k].to.0 < t),
                    forall|m: Move|
                        legal(b@, m) && (m.from.0 < f || (m.from.0 == f && m.to.0 < t))
                            ==> #[trigger] out@.contains(m),
                    forall|i: int, j: int| 0 <= i < j < out@.len() ==> out@[i] != out@[j],
                decreases 64 - t,
            {
                if t != f {
                    let kind = classify_ex(b, f, t);
                    let pawn_promo = (match b.squares[f] {
                        Some((_, pp)) => piece_eq(pp, Piece::Pawn),
                        None => false,
                    }) && (match b.turn {
                        Side::White => t / 8 == 7,
                        Side::Black => t / 8 == 0,
                    });
                    let ghost out_before = out@;
                    if pawn_promo {
                        let cn = Move {
                            from: Square(f),
                            to: Square(t),
                            promotion: Some(Piece::Knight),
                            kind,
                        };
                        let cb = Move {
                            from: Square(f),
                            to: Square(t),
                            promotion: Some(Piece::Bishop),
                            kind,
                        };
                        let cr = Move {
                            from: Square(f),
                            to: Square(t),
                            promotion: Some(Piece::Rook),
                            kind,
                        };
                        let cq = Move {
                            from: Square(f),
                            to: Square(t),
                            promotion: Some(Piece::Queen),
                            kind,
                        };
                        push_if_legal(b, &mut out, cn);
                        push_if_legal(b, &mut out, cb);
                        push_if_legal(b, &mut out, cr);
                        push_if_legal(b, &mut out, cq);
                        proof {
                            lemma_push_scheme(out_before, out@, cn, cb, cr, cq, legal(b@, cn),
                                legal(b@, cb), legal(b@, cr), legal(b@, cq));
                            assert forall|m: Move|
                                legal(b@, m) && m.from.0 == f && m.to.0 == t implies out@.contains(
                                m,
                            ) by {
                                assert(m.kind == classify(b@, f as int, t as int));
                                assert(m == cn || m == cb || m == cr || m == cq);
                            }
                            assert forall|m: Move|
                                legal(b@, m) && (m.from.0 < f || (m.from.0 == f && m.to.0 < t
                                    + 1)) implies out@.contains(m) by {
                                if m.from.0 < f || (m.from.0 == f && m.to.0 < t) {
                                    assert(out_before.contains(m));
                                    let k = choose|k: int|
                                        0 <= k < out_before.len() && out_before[k] == m;
                                    assert(out@[k] == m);
                                }
                            }
                        }
                    } else {
                        let c = Move { from: Square(f), to: Square(t), promotion: None, kind };
                        push_if_legal(b, &mut out, c);
                        proof {
                            assert forall|m: Move|
                                legal(b@, m) && m.from.0 == f && m.to.0 == t implies out@.contains(
                                m,
                            ) by {
                                assert(m.kind == classify(b@, f as int, t as int));
                                assert(m.promotion is None);
                                assert(m == c);
                                assert(out@ == out_before.push(c));
                                assert(out@[out@.len() - 1] == c);
                            }
                            assert forall|m: Move|
                                legal(b@, m) && (m.from.0 < f || (m.from.0 == f && m.to.0 < t
                                    + 1)) implies out@.contains(m) by {
                                if m.from.0 < f || (m.from.0 == f && m.to.0 < t) {
                                    assert(out_before.contains(m));
                                    let k = choose|k: int|
                                        0 <= k < out_before.len() && out_before[k] == m;
                                    assert(out@[k] == m);
                                }
                            }
                        }
                    }
                } else {
                    proof {
                        assert forall|m: Move| legal(b@, m) && m.from.0 == f && m.to.0 == t
                            implies false by {}
                    }
                }
                t = t + 1;
            }
        } else {
            proof {
                assert forall|m: Move| legal(b@, m) implies m.from.0 != f by {
                    if m.from.0 == f {
                        assert(b@.squares[f as int] is Some && crate::moves::side_at(b@, f as int)
                            == b@.turn);
                    }
                }
            }
        }
        f = f + 1;
    }
    out
}

/// The four promotion candidates are pairwise distinct and absent from the
/// list, so pushing whichever of them are legal keeps the list free of
/// duplicates, keeps every prior entry, adds nothing but candidates, and
/// ends up containing every candidate that was pushed.
proof fn lemma_push_scheme(
    s0: Seq<Move>,
    s4: Seq<Move>,
    cn: Move,
    cb: Move,
    cr: Move,
    cq: Move,
    ln: bool,
    lb: bool,
    lr: bool,
    lq: bool,
)
    requires
        s4 == push_opt(push_opt(push_opt(push_opt(s0, cn, ln), cb, lb), cr, lr), cq, lq),
        cn != cb && cn != cr && cn != cq && cb != cr && cb != cq && cr != cq,
        forall|i: int|
            0 <= i < s0.len() ==> s0[i] != cn && s0[i] != cb && s0[i] != cr && s0[i] != cq,
        forall|i: int, j: int| 0 <= i < j < s0.len() ==> s0[i] != s0[j],
    ensures
        s4.len() >= s0.len(),
        forall|i: int| 0 <= i < s0.len() ==> s4[i] == s0[i],
        forall|i: int|
            s0.len() <= i < s4.len() ==> ((s4[i] == cn && ln) || (s4[i] == cb && lb) || (s4[i]
                == cr && lr) || (s4[i] == cq && lq)),
        forall|i: int, j: int| 0 <= i < j < s4.len() ==> s4[i] != s4[j],
        ln ==> s4.contains(cn),
        lb ==> s4.contains(cb),
        lr ==> s4.contains(cr),
        lq ==> s4.contains(cq),
{
    let s1 = push_opt(s0, cn, ln);
    let s2 = push_opt(s1, cb, lb);
    let s3 = push_opt(s2, cr, lr);
    assert(forall|i: int| s0.len() <= i < s1.len() ==> s1[i] == cn && ln);
    assert(forall|i: int| s1.len() <= i < s2.len() ==> s2[i] == cb && lb);
    assert(forall|i: int| s2.len() <= i < s3.len() ==> s3[i] == cr && lr);
    assert(forall|i: int| s3.len() <= i < s4.len() ==> s4[i] == cq && lq);
    assert(forall|i: int, j: int| 0 <= i < j < s1.len() ==> s1[i] != s1[j]);
    assert(forall|i: int, j: int| 0 <= i < j < s2.len() ==> s2[i] != s2[j]);
    assert(forall|i: int, j: int| 0 <= i < j < s3.len() ==> s3[i] != s3[j]);
    assert(forall|i: int, j: int| 0 <= i < j < s4.len() ==> s4[i] != s4[j]);
    if ln {
        assert(s4[s1.len() - 1] == cn);
        assert(s4.contains(cn));
    }
    if lb {
        assert(s4[s2.len() - 1] == cb);
        assert(s4.contains(cb));
    }
    if lr {
        assert(s4[s3.len() - 1] == cr);
        assert(s4.contains(cr));
    }
    if lq {
        assert(s4[s4.len() - 1] == cq);
        assert(s4.contains(cq));
    }
}

/// `s` extended by `c` when `take` holds, unchanged otherwise.
spec fn push_opt(s: Seq<Move>, c: Move, take: bool) -> Seq<Move> {
    if take {
        s.push(c)
    } else {
        s
    }
}

/// Checkmate: the side to move is in check and has no legal move.
pub fn is_checkmate(b: &Board) -> (r: bool)
    requires
        b.wf(),
        b.halfmove_clock < u64::MAX,
        b.fullmove_number < u64::MAX,
    ensures
        r == (no_legal_moves(b@) && in_check(b@, b@.turn)),
{
    let ms = legal_moves(b);
    let none_left = ms.len() == 0;
    proof {
        lemma_empty_iff_no_legal(ms@, b@);
    }
    none_left && in_check_ex(b, b.turn)
}

/// Stalemate: the side to move is not in check yet has no legal move.
pub fn is_stalemate(b: &Board) -> (r: bool)
    requires
        b.wf(),
        b.halfmove_clock < u64::MAX,
        b.fullmove_number < u64::MAX,
    ensures
        r == (no_legal_moves(b@) && !in_check(b@, b@.turn)),
{
    let ms = legal_moves(b);
    let none_left = ms.len() == 0;
    proof {
        lemma_empty_iff_no_legal(ms@, b@);
    }
    none_left && !in_check_ex(b, b.turn)
}

/// A move list that contains exactly the legal moves is empty exactly when
/// no legal move exists.
proof fn lemma_empty_iff_no_legal(s: Seq<Move>, v: BoardView)
    requires
        forall|m: Move| #[trigger] s.contains(m) <==> legal(v, m),
    ensures
        (s.len() == 0) <==> no_legal_moves(v),
{
    if s.len() == 0 {
        assert forall|m: Move| !legal(v, m) by {
            assert(!s.contains(m));
        }
    } else {
        assert(s.contains(s[0]));
    }
}

/// A kingside castle can be generated only with the right still held, the
/// rook at home, the crossed squares empty, and no crossed, departed, or
/// landing square attacked: once king or rook has moved (the right is
/// gone), or a square between is occupied or attacked, the move is not
/// legal.
pub proof fn lemma_castle_kingside_conditions(v: BoardView, m: Move)
    requires
        pseudo_legal(v, m),
        m.kind == MoveKind::CastleKingside,
    ensures
        kingside_right(v, v.turn),
        m.from.0 == home_rank(v.turn) * 8 + 4,
        m.to.0 == home_rank(v.turn) * 8 + 6,
        v.squares[home_rank(v.turn) * 8 + 5] is None,
        v.squares[home_rank(v.turn) * 8 + 6] is None,
        v.squares[home_rank(v.turn) * 8 + 7] == Some((v.turn, Piece::Rook)),
        !attacked(v, home_rank(v.turn) * 8 + 4, other(v.turn)),
        !attacked(v, home_rank(v.turn) * 8 + 5, other(v.turn)),
        !attacked(v, home_rank(v.turn) * 8 + 6, other(v.turn)),
{
    let f = m.from.0 as int;
    let t = m.to.0 as int;
    assert(crate::moves::piece_at(v, f) == Piece::King && crate::attacks::iabs(
        crate::attacks::df(f, t),
    ) == 2);
    assert(!crate::attacks::king_geom(f, t));
    assert(castle_ok(v, f, t));
}

/// The queenside counterpart of [`lemma_castle_kingside_conditions`].
pub proof fn lemma_castle_queenside_conditions(v: BoardView, m: Move)
    requires
        pseudo_legal(v, m),
        m.kind == MoveKind::CastleQueenside,
    ensures
        queenside_right(v, v.turn),
        m.from.0 == home_rank(v.turn) * 8 + 4,
        m.to.0 == home_rank(v.turn) * 8 + 2,
        v.squares[home_rank(v.turn) * 8 + 1] is None,
        v.squares[home_rank(v.turn) * 8 + 2] is None,
        v.squares[home_rank(v.turn) * 8 + 3] is None,
        v.squares[home_rank(v.turn) * 8] == Some((v.turn, Piece::Rook)),
        !attacked(v, home_rank(v.turn) * 8 + 4, other(v.turn)),
        !attacked(v, home_rank(v.turn) * 8 + 3, other(v.turn)),
        !attacked(v, home_rank(v.turn) * 8 + 2, other(v.turn)),
{
    let f = m.from.0 as int;
    let t = m.to.0 as int;
    assert(crate::moves::piece_at(v, f) == Piece::King && crate::attacks::iabs(
        crate::attacks::df(f, t),
    ) == 2);
    assert(!crate::attacks::king_geom(f, t));
    assert(castle_ok(v, f, t));
}

} // verus!
