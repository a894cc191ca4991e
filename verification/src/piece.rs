use vstd::prelude::*;

use crate::board::Board;
use crate::position::Position;

verus! {

/// The two sides of the game.
#[derive(Clone, Copy, Debug, PartialEq, Eq, Structural)]
pub enum PieceColor {
    White,
    Black,
}

/// A piece: one of six kinds, carrying its color and the square it stands on.
/// Pieces are immutable values; "moving" one produces a new value.
#[derive(Clone, Copy, Debug, PartialEq, Eq, Structural)]
pub enum Piece {
    King(PieceColor, Position),
    Queen(PieceColor, Position),
    Rook(PieceColor, Position),
    Bishop(PieceColor, Position),
    Knight(PieceColor, Position),
    Pawn(PieceColor, Position),
}

impl Piece {
    /// The color the piece plays for.
    pub open spec fn color(self) -> PieceColor {
        match self {
            Piece::King(color, _) => color,
            Piece::Queen(color, _) => color,
            Piece::Rook(color, _) => color,
            Piece::Bishop(color, _) => color,
            Piece::Knight(color, _) => color,
            Piece::Pawn(color, _) => color,
        }
    }

    /// The square the piece stands on.
    pub open spec fn position(self) -> Position {
        match self {
            Piece::King(_, pos) => pos,
            Piece::Queen(_, pos) => pos,
            Piece::Rook(_, pos) => pos,
            Piece::Bishop(_, pos) => pos,
            Piece::Knight(_, pos) => pos,
            Piece::Pawn(_, pos) => pos,
        }
    }

    /// The same kind and color, standing on `pos`.
    pub open spec fn with_position(self, pos: Position) -> Piece {
        match self {
            Piece::King(color, _) => Piece::King(color, pos),
            Piece::Queen(color, _) => Piece::Queen(color, pos),
            Piece::Rook(color, _) => Piece::Rook(color, pos),
            Piece::Bishop(color, _) => Piece::Bishop(color, pos),
            Piece::Knight(color, _) => Piece::Knight(color, pos),
            Piece::Pawn(color, _) => Piece::Pawn(color, pos),
        }
    }

    /// Whether the piece stands on a square inside the board.
    pub open spec fn is_valid(self) -> bool {
        self.position().is_valid()
    }

    /// The single FEN letter of the piece: the standard letter per kind,
    /// uppercase for White and lowercase for Black.
    pub open spec fn ascii_char(self) -> char {
        match self {
            Piece::King(color, _) => if color == PieceColor::White {
                'K'
            } else {
                'k'
            },
            Piece::Queen(color, _) => if color == PieceColor::White {
                'Q'
            } else {
                'q'
            },
            Piece::Rook(color, _) => if color == PieceColor::White {
                'R'
            } else {
                'r'
            },
            Piece::Bishop(color, _) => if color == PieceColor::White {
                'B'
            } else {
                'b'
            },
            Piece::Knight(color, _) => if color == PieceColor::White {
                'N'
            } else {
                'n'
            },
            Piece::Pawn(color, _) => if color == PieceColor::White {
                'P'
            } else {
                'p'
            },
        }
    }

    /// The display glyph of the piece: one of twelve distinct chess figurines,
    /// keyed by kind and color.
    pub open spec fn icon_char(self) -> char {
        match self {
            Piece::King(color, _) => if color == PieceColor::White {
                '♔'
            } else {
                '♚'
            },
            Piece::Queen(color, _) => if color == PieceColor::White {
                '♕'
            } else {
                '♛'
            },
            Piece::Rook(color, _) => if color == PieceColor::White {
                '♜'
            } else {
                '♖'
            },
            Piece::Bishop(color, _) => if color == PieceColor::White {
                '♝'
            } else {
                '♗'
            },
            Piece::Knight(color, _) => if color == PieceColor::White {
                '♞'
            } else {
                '♘'
            },
            Piece::Pawn(color, _) => if color == PieceColor::White {
                '♟'
            } else {
                '♙'
            },
        }
    }

    /// The display character of the piece: its figurine glyph when `as_icon`
    /// is set, its FEN letter otherwise.
    pub fn get_char(&self, as_icon: bool) -> (c: char)
        ensures
            c == if as_icon {
                self.icon_char()
            } else {
                self.ascii_char()
            },
    {
        match self {
            Piece::King(color, _) => match color {
                PieceColor::White => if as_icon {
                    '♔'
                } else {
                    'K'
                },
                PieceColor::Black => if as_icon {
                    '♚'
                } else {
                    'k'
                },
            },
            Piece::Queen(color, _) => match color {
                PieceColor::White => if as_icon {
                    '♕'
                } else {
                    'Q'
                },
                PieceColor::Black => if as_icon {
                    '♛'
                } else {
                    'q'
                },
            },
            Piece::Rook(color, _) => match color {
                PieceColor::White => if as_icon {
                    '♜'
                } else {
                    'R'
                },
                PieceColor::Black => if as_icon {
                    '♖'
                } else {
                    'r'
                },
            },
            Piece::Bishop(color, _) => match color {
                PieceColor::White => if as_icon {
                    '♝'
                } else {
                    'B'
                },
                PieceColor::Black => if as_icon {
                    '♗'
                } else {
                    'b'
                },
            },
            Piece::Knight(color, _) => match color {
                PieceColor::White => if as_icon {
                    '♞'
                } else {
                    'N'
                },
                PieceColor::Black => if as_icon {
                    '♘'
                } else {
                    'n'
                },
            },
            Piece::Pawn(color, _) => match color {
                PieceColor::White => if as_icon {
                    '♟'
                } else {
                    'P'
                },
                PieceColor::Black => if as_icon {
                    '♙'
                } else {
                    'p'
                },
            },
        }
    }

    /// The square the piece stands on.
    pub fn get_position(&self) -> (pos: Position)
        ensures
            pos == self.position(),
    {
        match self {
            Piece::King(_, pos) => *pos,
            Piece::Queen(_, pos) => *pos,
            Piece::Rook(_, pos) => *pos,
            Piece::Bishop(_, pos) => *pos,
            Piece::Knight(_, pos) => *pos,
            Piece::Pawn(_, pos) => *pos,
        }
    }

    /// The color the piece plays for.
    pub fn get_color(&self) -> (color: PieceColor)
        ensures
            color == self.color(),
    {
        match self {
            Piece::King(color, _) => *color,
            Piece::Queen(color, _) => *color,
            Piece::Rook(color, _) => *color,
            Piece::Bishop(color, _) => *color,
            Piece::Knight(color, _) => *color,
            Piece::Pawn(color, _) => *color,
        }
    }

    /// The legal destinations of the piece on the given board. Move
    /// legality is outside the scope of this library, so every piece
    /// reports no destinations.
    pub fn get_legal_moves(&self, _board: Board) -> (moves: Vec<Position>)
        ensures
            moves@ == Seq::<Position>::empty(),
    {
        Vec::new()
    }

    /// A new piece of the same kind and color standing on `new_pos`; the
    /// receiver is left as it was.
    pub fn copy_with_new_position(&self, new_pos: Position) -> (piece: Piece)
        ensures
            piece == self.with_position(new_pos),
            piece.color() == self.color(),
            piece.position() == new_pos,
    {
        match self {
            Piece::King(color, _) => Piece::King(*color, new_pos),
            Piece::Queen(color, _) => Piece::Queen(*color, new_pos),
            Piece::Rook(color, _) => Piece::Rook(*color, new_pos),
            Piece::Bishop(color, _) => Piece::Bishop(*color, new_pos),
            Piece::Knight(color, _) => Piece::Knight(*color, new_pos),
            Piece::Pawn(color, _) => Piece::Pawn(*color, new_pos),
        }
    }
}

} // verus!
