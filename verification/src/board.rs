//! The position: squares, pieces, and the full board state.

pub mod square;
pub mod piece;
pub mod board;
