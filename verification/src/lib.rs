//! A small chess-position library: validated square coordinates, pieces,
//! castling rights, and an 8x8 board that can serialize itself to FEN.

pub mod board;
pub mod castling_rights;
pub mod error;
pub mod piece;
pub mod position;
pub mod text;
