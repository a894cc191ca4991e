use vstd::prelude::*;

use crate::error::ChessError;

verus! {

/// A square of the board, as a (file, rank) pair of characters:
/// file in 'a'..='h', rank in '1'..='8'.
#[derive(Clone, Copy, Debug, PartialEq, Eq, Structural)]
pub struct Position(pub char, pub char);

/// A square as zero-based grid indices: (file index, rank index), each in 0..=7.
#[derive(Clone, Copy, Debug, PartialEq, Eq, Structural)]
pub struct BoardIndex(pub usize, pub usize);

pub open spec fn valid_file(file: char) -> bool {
    'a' <= file && file <= 'h'
}

pub open spec fn valid_rank(rank: char) -> bool {
    '1' <= rank && rank <= '8'
}

/// The zero-based index of a file character: 'a' -> 0, ..., 'h' -> 7.
pub open spec fn file_index(file: char) -> int {
    file as int - 'a' as int
}

/// The zero-based index of a rank character: '1' -> 0, ..., '8' -> 7.
pub open spec fn rank_index(rank: char) -> int {
    rank as int - '1' as int
}

/// The file character for a zero-based index: 0 -> 'a', ..., 7 -> 'h'.
pub open spec fn file_char(index: int) -> char {
    if index == 0 {
        'a'
    } else if index == 1 {
        'b'
    } else if index == 2 {
        'c'
    } else if index == 3 {
        'd'
    } else if index == 4 {
        'e'
    } else if index == 5 {
        'f'
    } else if index == 6 {
        'g'
    } else {
        'h'
    }
}

/// The rank character for a zero-based index: 0 -> '1', ..., 7 -> '8'.
pub open spec fn rank_char(index: int) -> char {
    if index == 0 {
        '1'
    } else if index == 1 {
        '2'
    } else if index == 2 {
        '3'
    } else if index == 3 {
        '4'
    } else if index == 4 {
        '5'
    } else if index == 5 {
        '6'
    } else if index == 6 {
        '7'
    } else {
        '8'
    }
}

impl Position {
    /// Whether both components lie in their legal ranges.
    pub open spec fn is_valid(self) -> bool {
        valid_file(self.0) && valid_rank(self.1)
    }

    /// Checks a (file, rank) pair without building a `Position`.
    pub fn validate(file: char, rank: char) -> (ok: bool)
        ensures
            ok == (valid_file(file) && valid_rank(rank)),
    {
        let file_ok = 'a' as u32 <= file as u32 && file as u32 <= 'h' as u32;
        let rank_ok = '1' as u32 <= rank as u32 && rank as u32 <= '8' as u32;
        file_ok && rank_ok
    }

    /// Builds a validated square; rejects any component outside a-h / 1-8.
    pub fn new(file: char, rank: char) -> (result: Result<Position, ChessError>)
        ensures
            valid_file(file) && valid_rank(rank) ==> result == Ok::<Position, ChessError>(
                Position(file, rank),
            ),
            !(valid_file(file) && valid_rank(rank)) ==> result == Err::<Position, ChessError>(
                ChessError::InvalidCoordinate,
            ),
    {
        if Position::validate(file, rank) {
            Ok(Position(file, rank))
        } else {
            Err(ChessError::InvalidCoordinate)
        }
    }

    /// Builds the square whose zero-based grid indices are the given pair;
    /// rejects any index outside 0..=7.
    pub fn new_from_indices(indices: BoardIndex) -> (result: Result<Position, ChessError>)
        ensures
            indices.0 < 8 && indices.1 < 8 ==> result == Ok::<Position, ChessError>(
                Position(file_char(indices.0 as int), rank_char(indices.1 as int)),
            ),
            !(indices.0 < 8 && indices.1 < 8) ==> result == Err::<Position, ChessError>(
                ChessError::InvalidCoordinate,
            ),
    {
        let BoardIndex(file_index, rank_index) = indices;
        if file_index >= 8 || rank_index >= 8 {
            return Err(ChessError::InvalidCoordinate);
        }
        let file: char = match file_index {
            0 => 'a',
            1 => 'b',
            2 => 'c',
            3 => 'd',
            4 => 'e',
            5 => 'f',
            6 => 'g',
            _ => 'h',
        };
        let rank: char = match rank_index {
            0 => '1',
            1 => '2',
            2 => '3',
            3 => '4',
            4 => '5',
            5 => '6',
            6 => '7',
            _ => '8',
        };
        Ok(Position(file, rank))
    }

    /// The zero-based (file index, rank index) pair of a valid square.
    pub fn get_indices(&self) -> (indices: (usize, usize))
        requires
            self.is_valid(),
        ensures
            indices.0 == file_index(self.0),
            indices.1 == rank_index(self.1),
            indices.0 < 8,
            indices.1 < 8,
    {
        let file_idx = (self.0 as u32 - 'a' as u32) as usize;
        let rank_idx = (self.1 as u32 - '1' as u32) as usize;
        (file_idx, rank_idx)
    }
}

/// Round trip from a valid square to its indices and back: both index maps
/// invert the character maps, so re-building a square from its own indices
/// gives the square again.
pub proof fn lemma_position_round_trip(file: char, rank: char)
    requires
        valid_file(file),
        valid_rank(rank),
    ensures
        file_char(file_index(file)) == file,
        rank_char(rank_index(rank)) == rank,
        0 <= file_index(file) < 8,
        0 <= rank_index(rank) < 8,
{
}

/// Round trip from valid indices to a square and back: the character maps
/// invert the index maps, and the square built from in-range indices is valid.
pub proof fn lemma_indices_round_trip(file_idx: int, rank_idx: int)
    requires
        0 <= file_idx < 8,
        0 <= rank_idx < 8,
    ensures
        file_index(file_char(file_idx)) == file_idx,
        rank_index(rank_char(rank_idx)) == rank_idx,
        Position(file_char(file_idx), rank_char(rank_idx)).is_valid(),
{
}

} // verus!
