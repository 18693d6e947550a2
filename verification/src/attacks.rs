//! Attack geometry: which squares a piece on a given square attacks,
//! given the current occupancy, and whether a side's king is in check.

use vstd::prelude::*;
use crate::board::board::{Board, BoardView};
use crate::board::piece::{other, pawn_dir, Piece, Side};
use crate::board::square::{file_of, on_board, rank_of};

verus! {

/// Absolute value.
pub open spec fn iabs(x: int) -> int {
    if x < 0 {
        -x
    } else {
        x
    }
}

/// Sign of `x`: -1, 0, or 1.
pub open spec fn sgn(x: int) -> int {
    if x > 0 {
        1
    } else if x < 0 {
        -1
    } else {
        0
    }
}

/// Rank difference from square `f` to square `t`.
pub open spec fn dr(f: int, t: int) -> int {
    rank_of(t) - rank_of(f)
}

/// File difference from square `f` to square `t`.
pub open spec fn df(f: int, t: int) -> int {
    file_of(t) - file_of(f)
}

/// Knight move pattern between two squares.
pub open spec fn knight_geom(f: int, t: int) -> bool {
    &&& on_board(f)
    &&& on_board(t)
    &&& ((iabs(dr(f, t)) == 1 && iabs(df(f, t)) == 2) || (iabs(dr(f, t)) == 2 && iabs(df(f, t))
        == 1))
}

/// King step pattern between two squares (castling aside).
pub open spec fn king_geom(f: int, t: int) -> bool {
    &&& on_board(f)
    &&& on_board(t)
    &&& f != t
    &&& iabs(dr(f, t)) <= 1
    &&& iabs(df(f, t)) <= 1
}

/// The two squares lie on a common diagonal.
pub open spec fn diag_line(f: int, t: int) -> bool {
    &&& on_board(f)
    &&& on_board(t)
    &&& f != t
    &&& iabs(dr(f, t)) == iabs(df(f, t))
}

/// The two squares lie on a common rank or file.
pub open spec fn ortho_line(f: int, t: int) -> bool {
    &&& on_board(f)
    &&& on_board(t)
    &&& f != t
    &&& (dr(f, t) == 0 || df(f, t) == 0)
}

/// The two squares lie on a common rank, file, or diagonal.
pub open spec fn sliding_line(f: int, t: int) -> bool {
    diag_line(f, t) || ortho_line(f, t)
}

/// Number of king steps from `f` to `t` along their common line.
pub open spec fn line_len(f: int, t: int) -> int {
    if iabs(dr(f, t)) >= iabs(df(f, t)) {
        iabs(dr(f, t))
    } else {
        iabs(df(f, t))
    }
}

/// The `j`-th square on the line from `f` toward `t` (`j == 0` is `f`).
pub open spec fn ray_sq(f: int, t: int, j: int) -> int {
    (rank_of(f) + j * sgn(dr(f, t))) * 8 + (file_of(f) + j * sgn(df(f, t)))
}

/// Every square strictly between `f` and `t` on their common line is empty.
pub open spec fn path_clear(sq: Seq<Option<(Side, Piece)>>, f: int, t: int) -> bool {
    forall|j: int| 1 <= j < line_len(f, t) ==> sq[#[trigger] ray_sq(f, t, j)] is None
}

/// Any square on a line between two board squares is itself on the board,
/// and its rank and file advance stepwise from `f` toward `t`.
pub proof fn lemma_ray_on_board(f: int, t: int, j: int)
    requires
        sliding_line(f, t),
        0 <= j <= line_len(f, t),
    ensures
        on_board(ray_sq(f, t, j)),
        rank_of(ray_sq(f, t, j)) == rank_of(f) + j * sgn(dr(f, t)),
        file_of(ray_sq(f, t, j)) == file_of(f) + j * sgn(df(f, t)),
        j == 0 ==> ray_sq(f, t, j) == f,
        j == line_len(f, t) ==> ray_sq(f, t, j) == t,
{
    let rf = rank_of(f);
    let ff = file_of(f);
    let rt = rank_of(t);
    let ft = file_of(t);
    let sr = sgn(dr(f, t));
    let sf = sgn(df(f, t));
    assert(f == 8 * rf + ff && 0 <= ff < 8 && 0 <= rf < 8) by {
        vstd::arithmetic::div_mod::lemma_fundamental_div_mod(f, 8);
        vstd::arithmetic::div_mod::lemma_mod_bound(f, 8);
    };
    assert(t == 8 * rt + ft && 0 <= ft < 8 && 0 <= rt < 8) by {
        vstd::arithmetic::div_mod::lemma_fundamental_div_mod(t, 8);
        vstd::arithmetic::div_mod::lemma_mod_bound(t, 8);
    };
    // Pin down the stepped rank and file by case analysis on the direction.
    let rj = rf + j * sr;
    let fj = ff + j * sf;
    assert(0 <= rj < 8 && (j == line_len(f, t) ==> rj == rt)) by {
        if sr == 1 {
            assert(j * 1 == j) by (nonlinear_arith);
            assert(j * sr == j);
        } else if sr == -1 {
            assert(j * (-1) == -j) by (nonlinear_arith);
            assert(j * sr == -j);
        } else {
            assert(j * 0 == 0) by (nonlinear_arith);
            assert(j * sr == 0);
        }
    };
    assert(0 <= fj < 8 && (j == line_len(f, t) ==> fj == ft)) by {
        if sf == 1 {
            assert(j * 1 == j) by (nonlinear_arith);
            assert(j * sf == j);
        } else if sf == -1 {
            assert(j * (-1) == -j) by (nonlinear_arith);
            assert(j * sf == -j);
        } else {
            assert(j * 0 == 0) by (nonlinear_arith);
            assert(j * sf == 0);
        }
    };
    assert(ray_sq(f, t, j) == 8 * rj + fj);
    vstd::arithmetic::div_mod::lemma_fundamental_div_mod_converse(8 * rj + fj, 8, rj, fj);
    if j == 0 {
        assert(j * sr == 0 && j * sf == 0) by (nonlinear_arith)
            requires
                j == 0,
        ;
    }
}

/// Whether a piece of kind `p` and side `s` standing on `f` attacks square
/// `t` in position `v`. Pawn attacks are the diagonal captures only;
/// forward pushes are movement, not attack.
pub open spec fn attacks_from(v: BoardView, s: Side, p: Piece, f: int, t: int) -> bool {
    match p {
        Piece::Pawn => on_board(f) && on_board(t) && dr(f, t) == pawn_dir(s) && iabs(df(f, t))
            == 1,
        Piece::Knight => knight_geom(f, t),
        Piece::Bishop => diag_line(f, t) && path_clear(v.squares, f, t),
        Piece::Rook => ortho_line(f, t) && path_clear(v.squares, f, t),
        Piece::Queen => sliding_line(f, t) && path_clear(v.squares, f, t),
        Piece::King => king_geom(f, t),
    }
}

/// Whether the occupant of `f` is a piece of side `by` that attacks `t`.
pub open spec fn square_attacks(v: BoardView, f: int, t: int, by: Side) -> bool {
    match v.squares[f] {
        Some(o) => o.0 == by && attacks_from(v, by, o.1, f, t),
        None => false,
    }
}

/// Whether any piece of side `by` attacks square `t` in position `v`.
pub open spec fn attacked(v: BoardView, t: int, by: Side) -> bool {
    exists|f: int| 0 <= f < 64 && #[trigger] square_attacks(v, f, t, by)
}

/// Whether side `s` has a king that stands attacked by the other side.
pub open spec fn in_check(v: BoardView, s: Side) -> bool {
    exists|i: int|
        0 <= i < 64 && #[trigger] v.squares[i] == Some((s, Piece::King)) && attacked(
            v,
            i,
            other(s),
        )
}

/// Executable check that every square strictly between `from` and `to`
/// on their common line is empty.
pub fn path_clear_ex(b: &Board, from: usize, to: usize) -> (r: bool)
    requires
        b.wf(),
        sliding_line(from as int, to as int),
    ensures
        r == path_clear(b@.squares, from as int, to as int),
{
    let fr = (from / 8) as i64;
    let ff = (from % 8) as i64;
    let tr = (to / 8) as i64;
    let tf = (to % 8) as i64;
    let sr: i64 = if tr > fr {
        1
    } else if tr < fr {
        -1
    } else {
        0
    };
    let sf: i64 = if tf > ff {
        1
    } else if tf < ff {
        -1
    } else {
        0
    };
    let adr: i64 = if tr >= fr {
        tr - fr
    } else {
        fr - tr
    };
    let adf: i64 = if tf >= ff {
        tf - ff
    } else {
        ff - tf
    };
    let n: i64 = if adr >= adf {
        adr
    } else {
        adf
    };
    proof {
        assert(sr as int == sgn(dr(from as int, to as int)));
        assert(sf as int == sgn(df(from as int, to as int)));
        assert(n as int == line_len(from as int, to as int));
    }
    let mut j: i64 = 1;
    while j < n
        invariant
            b.wf(),
            1 <= j <= n,
            n < 8,
            sliding_line(from as int, to as int),
            sr as int == sgn(dr(from as int, to as int)),
            sf as int == sgn(df(from as int, to as int)),
            n as int == line_len(from as int, to as int),
            fr == rank_of(from as int),
            ff == file_of(from as int),
            forall|k: int|
                1 <= k < j ==> b@.squares[#[trigger] ray_sq(from as int, to as int, k)] is None,
        decreases n - j,
    {
        proof {
            lemma_ray_on_board(from as int, to as int, j as int);
        }
        let v: i64 = (fr + j * sr) * 8 + (ff + j * sf);
        proof {
            assert(v as int == ray_sq(from as int, to as int, j as int));
            assert(0 <= v < 64);
        }
        let idx = v as usize;
        if b.squares[idx].is_some() {
            proof {
                assert(!path_clear(b@.squares, from as int, to as int));
            }
            return false;
        }
        j = j + 1;
    }
    true
}

/// Executable test of [`attacks_from`].
pub fn attacks_from_ex(b: &Board, s: Side, p: Piece, from: usize, to: usize) -> (r: bool)
    requires
        b.wf(),
        from < 64,
        to < 64,
    ensures
        r == attacks_from(b@, s, p, from as int, to as int),
{
    let fr = (from / 8) as i64;
    let ff = (from % 8) as i64;
    let tr = (to / 8) as i64;
    let tf = (to % 8) as i64;
    let adr: i64 = if tr >= fr {
        tr - fr
    } else {
        fr - tr
    };
    let adf: i64 = if tf >= ff {
        tf - ff
    } else {
        ff - tf
    };
    match p {
        Piece::Pawn => {
            let dir: i64 = match s {
                Side::White => 1,
                Side::Black => -1,
            };
            tr - fr == dir && adf == 1
        },
        Piece::Knight => (adr == 1 && adf == 2) || (adr == 2 && adf == 1),
        Piece::King => from != to && adr <= 1 && adf <= 1,
        Piece::Bishop => from != to && adr == adf && path_clear_ex(b, from, to),
        Piece::Rook => from != to && (adr == 0 || adf == 0) && path_clear_ex(b, from, to),
        Piece::Queen => from != to && (adr == adf || adr == 0 || adf == 0) && path_clear_ex(
            b,
            from,
            to,
        ),
    }
}

/// The attack set of a piece of kind `p` and side `s` standing on `from`:
/// exactly the squares it attacks under the current occupancy, in
/// increasing order (so without duplicates, and deterministic).
pub fn attack_squares(b: &Board, s: Side, p: Piece, from: usize) -> (r: Vec<usize>)
    requires
        b.wf(),
        from < 64,
    ensures
        forall|u: usize|
            #[trigger] r@.contains(u) <==> (u < 64 && attacks_from(b@, s, p, from as int, u as int)),
        forall|i: int, j: int| 0 <= i < j < r@.len() ==> r@[i] < r@[j],
{
    let mut out: Vec<usize> = Vec::new();
    let mut t: usize = 0;
    while t < 64
        invariant
            b.wf(),
            from < 64,
            t <= 64,
            forall|k: int| 0 <= k < out@.len() ==> #[trigger] out@[k] < t,
            forall|i: int, j: int| 0 <= i < j < out@.len() ==> out@[i] < out@[j],
            forall|u: usize|
                #[trigger] out@.contains(u) <==> (u < t && attacks_from(
                    b@,
                    s,
                    p,
                    from as int,
                    u as int,
                )),
        decreases 64 - t,
    {
        let ghost before = out@;
        if attacks_from_ex(b, s, p, from, t) {
            out.push(t);
            proof {
                assert(out@[out@.len() - 1] == t);
                assert forall|u: usize| #[trigger] out@.contains(u) implies (u < t + 1
                    && attacks_from(b@, s, p, from as int, u as int)) by {
                    let k = choose|k: int| 0 <= k < out@.len() && out@[k] == u;
                    if k < out@.len() - 1 {
                        assert(before[k] == u);
                        assert(before.contains(u));
                    }
                }
                assert forall|u: usize|
                    u < t + 1 && attacks_from(b@, s, p, from as int, u as int) implies
                    #[trigger] out@.contains(u) by {
                    if u < t {
                        assert(before.contains(u));
                        let k = choose|k: int| 0 <= k < before.len() && before[k] == u;
                        assert(out@[k] == u);
                    }
                }
            }
        } else {
            proof {
                assert forall|u: usize|
                    u < t + 1 && attacks_from(b@, s, p, from as int, u as int) implies
                    #[trigger] out@.contains(u) by {
                    if u == t {
                        assert(!attacks_from(b@, s, p, from as int, t as int));
                    }
                }
            }
        }
        t = t + 1;
    }
    out
}

/// Executable test of [`attacked`]: scan all squares for an attacker.
pub fn square_attacked(b: &Board, t: usize, by: Side) -> (r: bool)
    requires
        b.wf(),
        t < 64,
    ensures
        r == attacked(b@, t as int, by),
{
    let mut f: usize = 0;
    while f < 64
        invariant
            b.wf(),
            t < 64,
            f <= 64,
            forall|k: int| 0 <= k < f ==> !square_attacks(b@, k, t as int, by),
        decreases 64 - f,
    {
        match b.squares[f] {
            Some((s, p)) => {
                if side_eq(s, by) && attacks_from_ex(b, by, p, f, t) {
                    proof {
                        assert(square_attacks(b@, f as int, t as int, by));
                    }
                    return true;
                }
            },
            None => {},
        }
        f = f + 1;
    }
    false
}

/// Executable side equality.
pub fn side_eq(a: Side, b: Side) -> (r: bool)
    ensures
        r == (a == b),
{
    match (a, b) {
        (Side::White, Side::White) => true,
        (Side::Black, Side::Black) => true,
        _ => false,
    }
}

/// Executable piece-kind equality.
pub fn piece_eq(a: Piece, b: Piece) -> (r: bool)
    ensures
        r == (a == b),
{
    match (a, b) {
        (Piece::Pawn, Piece::Pawn) => true,
        (Piece::Knight, Piece::Knight) => true,
        (Piece::Bishop, Piece::Bishop) => true,
        (Piece::Rook, Piece::Rook) => true,
        (Piece::Queen, Piece::Queen) => true,
        (Piece::King, Piece::King) => true,
        _ => false,
    }
}

/// Executable test of [`in_check`]: find the king of `s`, test whether the
/// other side attacks it.
pub fn in_check_ex(b: &Board, s: Side) -> (r: bool)
    requires
        b.wf(),
    ensures
        r == in_check(b@, s),
{
    let mut i: usize = 0;
    while i < 64
        invariant
            b.wf(),
            i <= 64,
            forall|k: int|
                0 <= k < i ==> !(#[trigger] b@.squares[k] == Some((s, Piece::King)) && attacked(
                    b@,
                    k,
                    other(s),
                )),
        decreases 64 - i,
    {
        match b.squares[i] {
            Some((os, p)) => {
                if side_eq(os, s) && piece_eq(p, Piece::King) {
                    if square_attacked(b, i, crate::board::piece::opposite(s)) {
                        proof {
                            assert(b@.squares[i as int] == Some((s, Piece::King)));
                        }
                        return true;
                    }
                }
            },
            None => {},
        }
        i = i + 1;
    }
    false
}

} // verus!
