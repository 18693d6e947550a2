use chessy_engine::attacks::{attack_squares, in_check_ex};
use chessy_engine::board::board::{Board, CastlingRights};
use chessy_engine::board::piece::{Piece, Side};
use chessy_engine::board::square::Square;
use chessy_engine::game::Game;
use chessy_engine::movegen::{is_checkmate, is_stalemate, legal_moves};
use chessy_engine::moves::{Move, MoveKind};

fn find_move(ms: &[Move], from: usize, to: usize) -> Option<Move> {
    ms.iter().find(|m| m.from.0 == from && m.to.0 == to).copied()
}

/// Kings on e1/e8 and nothing else, no castling rights.
fn kings_only() -> Board {
    let mut b = Board::empty();
    b.put(Square(4), Side::White, Piece::King);
    b.put(Square(60), Side::Black, Piece::King);
    b
}

#[test]
fn attack_sets_follow_piece_patterns() {
    // A knight on d4 attacks its eight squares whatever the occupancy.
    let b = kings_only();
    let knight = attack_squares(&b, Side::White, Piece::Knight, 27);
    assert_eq!(knight, vec![10, 12, 17, 21, 33, 37, 42, 44]);
    // A rook on a1 is blocked by the first occupied square, inclusively:
    // eastward by the king on e1, northward by the pawn on a4.
    let mut b = kings_only();
    b.put(Square(24), Side::Black, Piece::Pawn); // a4
    let rook = attack_squares(&b, Side::White, Piece::Rook, 0);
    assert_eq!(rook, vec![1, 2, 3, 4, 8, 16, 24]);
    // Pawn attacks are the two diagonals only, by side; pushes are not attacks.
    let pawn_w = attack_squares(&b, Side::White, Piece::Pawn, 12);
    assert_eq!(pawn_w, vec![19, 21]);
    let pawn_b = attack_squares(&b, Side::Black, Piece::Pawn, 12);
    assert_eq!(pawn_b, vec![3, 5]);
}

#[test]
fn legal_moves_never_leave_own_king_in_check() {
    let b = Board::start();
    let mover = b.turn;
    for m in legal_moves(&b) {
        let mut nb = b.duplicate();
        nb.make_move(m);
        assert!(!in_check_ex(&nb, mover));
    }
    // Also from a tactical position: white king e1, black rook e8 pinning
    // a white knight on e4 against the king.
    let mut b = kings_only();
    b.put(Square(28), Side::White, Piece::Knight);
    b.put(Square(52), Side::Black, Piece::Rook);
    let mover = b.turn;
    let ms = legal_moves(&b);
    for m in &ms {
        let mut nb = b.duplicate();
        nb.make_move(*m);
        assert!(!in_check_ex(&nb, mover));
    }
    // The pinned knight must have no legal move at all.
    assert!(ms.iter().all(|m| m.from.0 != 28));
}

#[test]
fn apply_then_undo_restores_board_exactly() {
    // A quiet move from the start position.
    let mut b = Board::start();
    let before = b.duplicate();
    let m = find_move(&legal_moves(&b), 12, 28).expect("e2e4");
    let u = b.make_move(m);
    b.unmake_move(u);
    assert_eq!(b, before);

    // A capture: scandinavian-style pawn takes pawn.
    let mut g = Game::start();
    let ms = g.legal_moves();
    assert!(g.try_play(find_move(&ms, 12, 28).unwrap())); // e2e4
    let ms = g.legal_moves();
    assert!(g.try_play(find_move(&ms, 51, 35).unwrap())); // d7d5
    let mut b = g.board.duplicate();
    let before = b.duplicate();
    let m = find_move(&legal_moves(&b), 28, 35).expect("exd5");
    assert_eq!(m.kind, MoveKind::Capture);
    let u = b.make_move(m);
    b.unmake_move(u);
    assert_eq!(b, before);
}

#[test]
fn castle_and_promotion_undo_restore_board_exactly() {
    // Castling both ways.
    let mut b = kings_only();
    b.put(Square(0), Side::White, Piece::Rook);
    b.put(Square(7), Side::White, Piece::Rook);
    b.rights = CastlingRights {
        white_kingside: true,
        white_queenside: true,
        black_kingside: false,
        black_queenside: false,
    };
    let before = b.duplicate();
    let mk = find_move(&legal_moves(&b), 4, 6).expect("castle kingside");
    assert_eq!(mk.kind, MoveKind::CastleKingside);
    let u = b.make_move(mk);
    assert_eq!(b.squares[6], Some((Side::White, Piece::King)));
    assert_eq!(b.squares[5], Some((Side::White, Piece::Rook)));
    assert_eq!(b.squares[7], None);
    assert!(!b.rights.white_kingside && !b.rights.white_queenside);
    b.unmake_move(u);
    assert_eq!(b, before);
    let mq = find_move(&legal_moves(&b), 4, 2).expect("castle queenside");
    assert_eq!(mq.kind, MoveKind::CastleQueenside);
    let u = b.make_move(mq);
    assert_eq!(b.squares[2], Some((Side::White, Piece::King)));
    assert_eq!(b.squares[3], Some((Side::White, Piece::Rook)));
    assert_eq!(b.squares[0], None);
    b.unmake_move(u);
    assert_eq!(b, before);

    // Promotion, both quiet and capturing.
    let mut b = kings_only();
    b.put(Square(48), Side::White, Piece::Pawn);
    b.put(Square(57), Side::Black, Piece::Rook);
    let before = b.duplicate();
    let ms = legal_moves(&b);
    let quiet_promos: Vec<Move> =
        ms.iter().filter(|m| m.from.0 == 48 && m.to.0 == 56).copied().collect();
    assert_eq!(quiet_promos.len(), 4);
    let mq = quiet_promos.iter().find(|m| m.promotion == Some(Piece::Queen)).unwrap();
    let u = b.make_move(*mq);
    assert_eq!(b.squares[56], Some((Side::White, Piece::Queen)));
    assert_eq!(b.squares[48], None);
    b.unmake_move(u);
    assert_eq!(b, before);
    let mc = ms
        .iter()
        .find(|m| m.from.0 == 48 && m.to.0 == 57 && m.promotion == Some(Piece::Knight))
        .expect("capture promotion");
    assert_eq!(mc.kind, MoveKind::Capture);
    let u = b.make_move(*mc);
    assert_eq!(b.squares[57], Some((Side::White, Piece::Knight)));
    b.unmake_move(u);
    assert_eq!(b, before);
}

#[test]
fn en_passant_capture_removes_passed_pawn() {
    // White pawn on e5, black pawn on d7; black double-pushes d7d5.
    let mut b = kings_only();
    b.put(Square(36), Side::White, Piece::Pawn); // e5
    b.put(Square(51), Side::Black, Piece::Pawn); // d7
    b.turn = Side::Black;
    let m = find_move(&legal_moves(&b), 51, 35).expect("d7d5");
    assert_eq!(m.kind, MoveKind::DoublePush);
    b.make_move(m);
    assert_eq!(b.ep_target, Some(Square(43))); // d6, the skipped square

    // Exactly one capturing move targets the skipped square.
    let ms = legal_moves(&b);
    let onto_skipped: Vec<Move> = ms.iter().filter(|m| m.to.0 == 43).copied().collect();
    assert_eq!(onto_skipped.len(), 1);
    let ep = onto_skipped[0];
    assert_eq!(ep.kind, MoveKind::EnPassant);
    assert_eq!(ep.from.0, 36);

    // Applying it removes the passed pawn on d5, not anything on d6.
    let before = b.duplicate();
    let u = b.make_move(ep);
    assert_eq!(b.squares[43], Some((Side::White, Piece::Pawn)));
    assert_eq!(b.squares[35], None);
    assert_eq!(b.squares[36], None);
    b.unmake_move(u);
    assert_eq!(b, before);

    // The target square is cleared after every other move.
    let m = find_move(&legal_moves(&b), 36, 44).expect("e5e6");
    b.make_move(m);
    assert_eq!(b.ep_target, None);
}

#[test]
fn castling_blocked_forbidden_or_revoked_is_absent() {
    let base = {
        let mut b = kings_only();
        b.put(Square(0), Side::White, Piece::Rook);
        b.put(Square(7), Side::White, Piece::Rook);
        b.rights = CastlingRights {
            white_kingside: true,
            white_queenside: true,
            black_kingside: false,
            black_queenside: false,
        };
        b
    };
    // With everything in order, both castling moves appear.
    let ms = legal_moves(&base);
    assert!(find_move(&ms, 4, 6).is_some());
    assert!(find_move(&ms, 4, 2).is_some());

    // Right revoked (king or rook has moved): the move must not appear.
    let mut b = base.duplicate();
    b.rights.white_kingside = false;
    let ms = legal_moves(&b);
    assert!(find_move(&ms, 4, 6).is_none());
    assert!(find_move(&ms, 4, 2).is_some());

    // Moving the king revokes both rights the moment it moves.
    let mut b = base.duplicate();
    let m = find_move(&legal_moves(&b), 4, 12).expect("Ke1e2");
    b.make_move(m);
    assert!(!b.rights.white_kingside && !b.rights.white_queenside);
    // Moving a rook revokes that side only.
    let mut b = base.duplicate();
    let m = find_move(&legal_moves(&b), 7, 15).expect("Rh1h2");
    b.make_move(m);
    assert!(!b.rights.white_kingside && b.rights.white_queenside);

    // An intervening square occupied: no castling through it.
    let mut b = base.duplicate();
    b.put(Square(5), Side::White, Piece::Bishop); // f1
    let ms = legal_moves(&b);
    assert!(find_move(&ms, 4, 6).is_none());
    assert!(find_move(&ms, 4, 2).is_some());

    // A crossed square attacked: black rook on f8 covers f1.
    let mut b = base.duplicate();
    b.put(Square(61), Side::Black, Piece::Rook); // f8
    let ms = legal_moves(&b);
    assert!(find_move(&ms, 4, 6).is_none());
    assert!(find_move(&ms, 4, 2).is_some());

    // The king in check: neither castling move appears.
    let mut b = base.duplicate();
    b.put(Square(28), Side::Black, Piece::Rook); // e4, checking e1
    let ms = legal_moves(&b);
    assert!(find_move(&ms, 4, 6).is_none());
    assert!(find_move(&ms, 4, 2).is_none());
}

#[test]
fn checkmate_and_stalemate_are_told_apart() {
    // Fool's mate: 1. f3 e5 2. g4 Qh4#.
    let mut g = Game::start();
    for (from, to) in [(13usize, 21usize), (52, 36), (14, 30), (59, 31)] {
        let m = find_move(&g.legal_moves(), from, to).expect("fool's mate line");
        assert!(g.try_play(m));
    }
    assert!(in_check_ex(&g.board, Side::White));
    assert_eq!(g.legal_moves().len(), 0);
    assert!(is_checkmate(&g.board));
    assert!(!is_stalemate(&g.board));

    // A classic stalemate: black king a8, white queen c7, white king b6,
    // black to move: not in check, but nowhere to go.
    let mut b = Board::empty();
    b.put(Square(56), Side::Black, Piece::King);
    b.put(Square(50), Side::White, Piece::Queen);
    b.put(Square(41), Side::White, Piece::King);
    b.turn = Side::Black;
    assert!(!in_check_ex(&b, Side::Black));
    assert_eq!(legal_moves(&b).len(), 0);
    assert!(is_stalemate(&b));
    assert!(!is_checkmate(&b));
}

#[test]
fn game_undo_and_repetition_counting() {
    let mut g = Game::start();
    let start = g.board.duplicate();
    // An illegal move is rejected and changes nothing.
    assert!(!g.try_play(Move {
        from: Square(12),
        to: Square(44),
        promotion: None,
        kind: MoveKind::Quiet,
    }));
    assert_eq!(g.board, start);
    // Knights out and back, twice: the start position recurs twice more.
    let shuffle = [(6usize, 21usize), (57, 42), (21, 6), (42, 57)];
    assert_eq!(g.repetition_count(), 0);
    for (from, to) in shuffle {
        let m = find_move(&g.legal_moves(), from, to).unwrap();
        assert!(g.try_play(m));
    }
    assert_eq!(g.repetition_count(), 1);
    assert!(!g.threefold_repetition());
    for (from, to) in shuffle {
        let m = find_move(&g.legal_moves(), from, to).unwrap();
        assert!(g.try_play(m));
    }
    assert_eq!(g.repetition_count(), 2);
    assert!(g.threefold_repetition());
    // Undo all eight plies: back at the exact start, bit for bit.
    for _ in 0..8 {
        assert!(g.undo_last());
    }
    assert_eq!(g.board, start);
    assert!(!g.undo_last());
    // Halfmove clock resets on pawn moves, counts otherwise.
    let mut g = Game::start();
    let m = find_move(&g.legal_moves(), 6, 21).unwrap();
    g.try_play(m);
    assert_eq!(g.board.halfmove_clock, 1);
    let m = find_move(&g.legal_moves(), 52, 36).unwrap();
    g.try_play(m);
    assert_eq!(g.board.halfmove_clock, 0);
    assert_eq!(g.board.fullmove_number, 2);
}
