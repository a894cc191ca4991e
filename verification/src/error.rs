use vstd::prelude::*;

verus! {

/// The failures the library can report.
///
/// `InvalidCoordinate` comes from constructing a square outside the board;
/// `EmptySourceSquare` comes from moving off a square that holds no piece.
#[derive(Clone, Copy, Debug, PartialEq, Eq, Structural)]
pub enum ChessError {
    InvalidCoordinate,
    EmptySourceSquare,
}

} // verus!
