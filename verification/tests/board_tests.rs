use chessy_engine::board::board::Board;
use chessy_engine::board::piece::{Piece, Side};
use chessy_engine::board::square::Square;
use chessy_engine::{engine_author, engine_name, get_info};

#[test]
fn test_empty_board() {
    let b = Board::empty();
    assert!(b.squares.iter().all(|sq| sq.is_none()));
}

#[test]
fn test_piece_equality() {
    assert_eq!(Piece::Pawn, Piece::Pawn);
    assert_ne!(Piece::Knight, Piece::Bishop);
}

#[test]
fn test_square() {
    let sq = Square(0);
    assert_eq!(sq.0, 0);
}

#[test]
fn test_square_rank_file() {
    let sq = Square(0);
    assert_eq!(sq.rank(), 0);
    assert_eq!(sq.file(), 0);

    let sq = Square(7);
    assert_eq!(sq.rank(), 0);
    assert_eq!(sq.file(), 7);
}

#[test]
fn it_works() {
    assert_eq!(2 + 2, 4);
}

#[test]
fn does_name_fn_work() {
    assert_eq!(chessy_engine::engine_name(), "chessy engine");
}

#[test]
fn test_engine_info() {
    let info = get_info();
    assert_eq!(info.name, engine_name());
    assert_eq!(info.author, engine_author());
    assert_eq!(info.author, "Mohammad Sohail");
}

#[test]
fn test_square_from_index_validation() {
    assert_eq!(Square::from_index(0), Some(Square(0)));
    assert_eq!(Square::from_index(63), Some(Square(63)));
    assert_eq!(Square::from_index(64), None);
    assert_eq!(Square::from_index(1000), None);
}

#[test]
fn test_square_at() {
    // e4: file e (4), rank 4 (index 3) -> square 28.
    let sq = Square::at(4, 3);
    assert_eq!(sq.0, 28);
    assert_eq!(sq.file(), 4);
    assert_eq!(sq.rank(), 3);
}

#[test]
fn test_algebraic_names() {
    assert_eq!(Square::from_algebraic("a1"), Some(Square(0)));
    assert_eq!(Square::from_algebraic("e4"), Some(Square(28)));
    assert_eq!(Square::from_algebraic("h8"), Some(Square(63)));
    assert_eq!(Square::from_algebraic("i1"), None);
    assert_eq!(Square::from_algebraic("a9"), None);
    assert_eq!(Square::from_algebraic("e"), None);
    assert_eq!(Square::from_algebraic("e44"), None);
    assert_eq!(Square::from_algebraic(""), None);
    assert_eq!(Square(28).to_algebraic(), ('e', '4'));
    assert_eq!(Square(0).to_algebraic(), ('a', '1'));
    assert_eq!(Square(63).to_algebraic(), ('h', '8'));
}

#[test]
fn test_start_position() {
    let b = Board::start();
    assert_eq!(b.squares[0], Some((Side::White, Piece::Rook)));
    assert_eq!(b.squares[4], Some((Side::White, Piece::King)));
    assert_eq!(b.squares[12], Some((Side::White, Piece::Pawn)));
    assert_eq!(b.squares[36], None);
    assert_eq!(b.squares[59], Some((Side::Black, Piece::Queen)));
    assert_eq!(b.squares[63], Some((Side::Black, Piece::Rook)));
    assert_eq!(b.turn, Side::White);
    assert!(b.rights.white_kingside && b.rights.black_queenside);
    assert_eq!(b.ep_target, None);
    assert_eq!(b.halfmove_clock, 0);
    assert_eq!(b.fullmove_number, 1);
}

#[test]
fn test_put_and_occupant() {
    let mut b = Board::empty();
    b.put(Square(27), Side::White, Piece::Knight);
    assert_eq!(b.occupant(Square(27)), Some((Side::White, Piece::Knight)));
    assert_eq!(b.occupant(Square(28)), None);
}
