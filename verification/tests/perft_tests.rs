use chessy_engine::board::board::Board;
use chessy_engine::movegen::legal_moves;

/// Number of legal move sequences of length `depth` from `b`.
fn perft(b: &Board, depth: u32) -> u64 {
    if depth == 0 {
        return 1;
    }
    let ms = legal_moves(b);
    if depth == 1 {
        return ms.len() as u64;
    }
    let mut total: u64 = 0;
    for m in ms {
        let mut nb = b.duplicate();
        nb.make_move(m);
        total += perft(&nb, depth - 1);
    }
    total
}

#[test]
fn perft_from_start_shallow() {
    let b = Board::start();
    assert_eq!(perft(&b, 1), 20);
    assert_eq!(perft(&b, 2), 400);
}

#[test]
fn perft_from_start_depth_three() {
    let b = Board::start();
    assert_eq!(perft(&b, 3), 8902);
}

#[test]
fn perft_from_start_depth_four() {
    let b = Board::start();
    assert_eq!(perft(&b, 4), 197281);
}
