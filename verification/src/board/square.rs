//! Squares of the 8x8 grid, indexed 0..64.

use vstd::prelude::*;
use vstd::string::StrSliceExecFns;

verus! {

/// Number of squares on the board.
pub const BOARD_SIZE: usize = 64;

/// Number of ranks (rows, 1 through 8).
pub const RANKS: usize = 8;

/// Number of files (columns, a through h).
pub const FILES: usize = 8;

/// A square index in [0, 63]: rank = index / 8 (0 is rank 1),
/// file = index % 8 (0 is file a).
#[derive(Debug, PartialEq, Eq, Clone, Copy, Structural)]
pub struct Square(pub usize);

/// Rank (row) of square index `i`.
pub open spec fn rank_of(i: int) -> int {
    i / 8
}

/// File (column) of square index `i`.
pub open spec fn file_of(i: int) -> int {
    i % 8
}

/// Whether `i` is a square index on the board.
pub open spec fn on_board(i: int) -> bool {
    0 <= i < 64
}

impl Square {
    /// Whether this square lies on the board.
    pub open spec fn valid(self) -> bool {
        self.0 < 64
    }

    /// Rank (row) of the square, 0 through 7.
    pub fn rank(&self) -> (r: usize)
        ensures
            r == rank_of(self.0 as int),
    {
        self.0 / FILES
    }

    /// File (column) of the square, 0 through 7.
    pub fn file(&self) -> (r: usize)
        ensures
            r == file_of(self.0 as int),
    {
        self.0 % FILES
    }

    /// Validated construction from an untrusted index: `Some` exactly
    /// when the index is on the board.
    pub fn from_index(i: usize) -> (r: Option<Square>)
        ensures
            i < 64 ==> r == Some(Square(i)),
            i >= 64 ==> r is None,
    {
        if i < BOARD_SIZE {
            Some(Square(i))
        } else {
            None
        }
    }

    /// The algebraic name of the square, as its two characters: the file
    /// letter (a through h) and the rank digit (1 through 8).
    pub fn to_algebraic(&self) -> (r: (char, char))
        requires
            self.valid(),
        ensures
            r.0 as int == 'a' as int + file_of(self.0 as int),
            r.1 as int == '1' as int + rank_of(self.0 as int),
    {
        let file = (self.0 % 8) as u8;
        let rank = (self.0 / 8) as u8;
        ((('a' as u8 + file) as char), (('1' as u8 + rank) as char))
    }

    /// Validated construction from an algebraic name such as `e4`: `Some`
    /// exactly when the text is a file letter a through h followed by a
    /// rank digit 1 through 8; malformed text is rejected, never clamped.
    pub fn from_algebraic(s: &str) -> (r: Option<Square>)
        ensures
            match r {
                Some(sq) => {
                    &&& sq.valid()
                    &&& s@.len() == 2
                    &&& s@[0] as int == 'a' as int + file_of(sq.0 as int)
                    &&& s@[1] as int == '1' as int + rank_of(sq.0 as int)
                },
                None => !(s@.len() == 2 && 'a' as int <= s@[0] as int <= 'h' as int && '1' as int
                    <= s@[1] as int <= '8' as int),
            },
    {
        if s.unicode_len() != 2 {
            return None;
        }
        let c0 = s.get_char(0) as u32;
        let c1 = s.get_char(1) as u32;
        if c0 < 'a' as u32 || c0 > 'h' as u32 || c1 < '1' as u32 || c1 > '8' as u32 {
            return None;
        }
        let file = (c0 - 'a' as u32) as usize;
        let rank = (c1 - '1' as u32) as usize;
        Some(Square::at(file, rank))
    }

    /// The square with the given file and rank, both 0 through 7.
    pub fn at(file: usize, rank: usize) -> (r: Square)
        requires
            file < 8,
            rank < 8,
        ensures
            r.0 == rank * 8 + file,
            r.valid(),
    {
        Square(rank * 8 + file)
    }
}

} // verus!
