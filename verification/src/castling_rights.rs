use vstd::prelude::*;

use crate::piece::PieceColor;
use crate::text::chars_to_string;

verus! {

/// The two wings a king may castle to.
#[derive(Clone, Copy, Debug, PartialEq, Eq, Structural)]
pub enum CastlingSide {
    Kingside,
    Queenside,
}

/// The four castling flags, one per (color, side) pair. A set flag means the
/// right is still available, independent of current legality.
#[derive(Clone, Copy, Debug, PartialEq, Eq, Structural)]
pub struct CastlingRights {
    pub white_kingside: bool,
    pub white_queenside: bool,
    pub black_kingside: bool,
    pub black_queenside: bool,
}

impl Default for CastlingRights {
    /// All four rights available, as at the start of a game.
    fn default() -> (rights: CastlingRights)
        ensures
            rights == (CastlingRights {
                white_kingside: true,
                white_queenside: true,
                black_kingside: true,
                black_queenside: true,
            }),
    {
        CastlingRights {
            white_kingside: true,
            white_queenside: true,
            black_kingside: true,
            black_queenside: true,
        }
    }
}

impl CastlingRights {
    /// The flag for the given color and side.
    pub open spec fn available(self, color: PieceColor, side: CastlingSide) -> bool {
        match color {
            PieceColor::White => match side {
                CastlingSide::Kingside => self.white_kingside,
                CastlingSide::Queenside => self.white_queenside,
            },
            PieceColor::Black => match side {
                CastlingSide::Kingside => self.black_kingside,
                CastlingSide::Queenside => self.black_queenside,
            },
        }
    }

    /// Whether no right is left at all.
    pub open spec fn none_available(self) -> bool {
        !self.white_kingside && !self.white_queenside && !self.black_kingside
            && !self.black_queenside
    }

    /// The FEN castling field: the letters of the available rights in the
    /// fixed order "KQkq", or "-" when none is available.
    pub open spec fn fen_spec(self) -> Seq<char> {
        if self.none_available() {
            seq!['-']
        } else {
            (if self.white_kingside {
                seq!['K']
            } else {
                Seq::<char>::empty()
            }) + (if self.white_queenside {
                seq!['Q']
            } else {
                Seq::<char>::empty()
            }) + (if self.black_kingside {
                seq!['k']
            } else {
                Seq::<char>::empty()
            }) + (if self.black_queenside {
                seq!['q']
            } else {
                Seq::<char>::empty()
            })
        }
    }

    /// Looks up the flag for the given color and side.
    pub fn is_available(&self, color: PieceColor, side: CastlingSide) -> (flag: bool)
        ensures
            flag == self.available(color, side),
    {
        match color {
            PieceColor::White => match side {
                CastlingSide::Kingside => self.white_kingside,
                CastlingSide::Queenside => self.white_queenside,
            },
            PieceColor::Black => match side {
                CastlingSide::Kingside => self.black_kingside,
                CastlingSide::Queenside => self.black_queenside,
            },
        }
    }

    /// The FEN castling field, as characters.
    pub(crate) fn fen_chars(&self) -> (chars: Vec<char>)
        ensures
            chars@ == self.fen_spec(),
    {
        let mut chars: Vec<char> = Vec::new();
        if self.white_kingside {
            chars.push('K');
        }
        if self.white_queenside {
            chars.push('Q');
        }
        if self.black_kingside {
            chars.push('k');
        }
        if self.black_queenside {
            chars.push('q');
        }
        if chars.len() == 0 {
            chars.push('-');
        }
        proof {
            assert(chars@ =~= self.fen_spec());
        }
        chars
    }

    /// The FEN castling field: the letters of the available rights in the
    /// order "KQkq", or "-" when none is available.
    pub fn get_fen(&self) -> (fen: String)
        ensures
            fen@ == self.fen_spec(),
    {
        let chars = self.fen_chars();
        chars_to_string(&chars)
    }
}

} // verus!
