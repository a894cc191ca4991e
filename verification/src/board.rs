use vstd::prelude::*;

use crate::castling_rights::CastlingRights;
use crate::error::ChessError;
use crate::piece::Piece;
use crate::piece::PieceColor;
use crate::position::file_char;
use crate::position::file_index;
use crate::position::rank_char;
use crate::position::rank_index;
use crate::position::BoardIndex;
use crate::position::Position;
use crate::text::chars_to_string;

verus! {

/// The flat index of a square in the grid, which is stored file-major:
/// the cell of file index `f` and rank index `r` sits at `f * 8 + r`.
pub open spec fn cell_index(pos: Position) -> int {
    file_index(pos.0) * 8 + rank_index(pos.1)
}

/// The cell of file index `file_idx` and rank index `rank_idx` of a grid.
pub open spec fn cell_at(grid: Seq<Option<Piece>>, file_idx: int, rank_idx: int) -> Option<
    Piece,
> {
    grid[file_idx * 8 + rank_idx]
}

/// What holds of one cell of a well-formed grid: an occupant stands on a
/// valid square, and that square is the cell's own.
pub open spec fn cell_ok(grid: Seq<Option<Piece>>, file_idx: int, rank_idx: int) -> bool {
    match grid[file_idx * 8 + rank_idx] {
        Some(piece) => piece.is_valid() && file_index(piece.position().0) == file_idx
            && rank_index(piece.position().1) == rank_idx,
        None => true,
    }
}

/// The grid after a piece is put down on its own square, overwriting any
/// previous occupant there.
pub open spec fn spec_place(grid: Seq<Option<Piece>>, piece: Piece) -> Seq<Option<Piece>> {
    grid.update(cell_index(piece.position()), Some(piece))
}

/// The grid after the occupant of `from` is lifted and put down on `to`
/// (with its stored square updated), overwriting any occupant of `to`.
pub open spec fn spec_move(
    grid: Seq<Option<Piece>>,
    from: Position,
    to: Position,
    piece: Piece,
) -> Seq<Option<Piece>> {
    grid.update(cell_index(from), None).update(cell_index(to), Some(piece.with_position(to)))
}

/// The piece of the standard starting back rank at the given file index:
/// Rook, Knight, Bishop, Queen, King, Bishop, Knight, Rook across files a-h.
pub open spec fn back_rank_piece(color: PieceColor, file_idx: int, pos: Position) -> Piece {
    if file_idx == 0 || file_idx == 7 {
        Piece::Rook(color, pos)
    } else if file_idx == 1 || file_idx == 6 {
        Piece::Knight(color, pos)
    } else if file_idx == 2 || file_idx == 5 {
        Piece::Bishop(color, pos)
    } else if file_idx == 3 {
        Piece::Queen(color, pos)
    } else {
        Piece::King(color, pos)
    }
}

/// The occupant a cell holds in the standard starting position: White's back
/// rank and pawns on rank indices 0 and 1, Black's mirrored on 7 and 6.
pub open spec fn initial_piece(file_idx: int, rank_idx: int) -> Option<Piece> {
    let pos = Position(file_char(file_idx), rank_char(rank_idx));
    if rank_idx == 0 {
        Some(back_rank_piece(PieceColor::White, file_idx, pos))
    } else if rank_idx == 1 {
        Some(Piece::Pawn(PieceColor::White, pos))
    } else if rank_idx == 6 {
        Some(Piece::Pawn(PieceColor::Black, pos))
    } else if rank_idx == 7 {
        Some(back_rank_piece(PieceColor::Black, file_idx, pos))
    } else {
        None
    }
}

/// The digit character for a run of 1 to 8 empty squares.
pub open spec fn digit_char(count: int) -> char {
    if count == 1 {
        '1'
    } else if count == 2 {
        '2'
    } else if count == 3 {
        '3'
    } else if count == 4 {
        '4'
    } else if count == 5 {
        '5'
    } else if count == 6 {
        '6'
    } else if count == 7 {
        '7'
    } else {
        '8'
    }
}

/// The FEN run for one rank, from `file_idx` onward, with `empties` empty
/// squares already seen and not yet emitted: a piece closes the pending run
/// as a digit and emits its letter; a trailing run closes at the rank's end.
pub open spec fn rank_fen_from(
    grid: Seq<Option<Piece>>,
    rank_idx: int,
    file_idx: int,
    empties: int,
) -> Seq<char>
    decreases 8 - file_idx,
{
    if file_idx >= 8 {
        if empties > 0 {
            seq![digit_char(empties)]
        } else {
            Seq::<char>::empty()
        }
    } else {
        match cell_at(grid, file_idx, rank_idx) {
            Some(piece) => (if empties > 0 {
                seq![digit_char(empties)]
            } else {
                Seq::<char>::empty()
            }) + seq![piece.ascii_char()] + rank_fen_from(grid, rank_idx, file_idx + 1, 0),
            None => rank_fen_from(grid, rank_idx, file_idx + 1, empties + 1),
        }
    }
}

/// The FEN piece run of one whole rank, files a through h.
pub open spec fn rank_fen(grid: Seq<Option<Piece>>, rank_idx: int) -> Seq<char> {
    rank_fen_from(grid, rank_idx, 0, 0)
}

/// The FEN piece-placement field from rank index `rank_idx` down to rank
/// index 0, rank runs separated by '/'.
pub open spec fn placement_fen_down(grid: Seq<Option<Piece>>, rank_idx: int) -> Seq<char>
    decreases rank_idx,
{
    if rank_idx <= 0 {
        rank_fen(grid, 0)
    } else {
        rank_fen(grid, rank_idx) + seq!['/'] + placement_fen_down(grid, rank_idx - 1)
    }
}

/// The FEN side-to-move field.
pub open spec fn side_char(color: PieceColor) -> char {
    match color {
        PieceColor::White => 'w',
        PieceColor::Black => 'b',
    }
}

/// The character a square shows in the board diagram: its occupant's glyph,
/// or a blank for an empty square.
pub open spec fn display_cell(cell: Option<Piece>) -> char {
    match cell {
        Some(piece) => piece.icon_char(),
        None => ' ',
    }
}

/// One diagram row from `file_idx` onward: the glyphs of rank `rank_idx`
/// across the remaining files, closed by a newline.
pub open spec fn display_row_from(grid: Seq<Option<Piece>>, rank_idx: int, file_idx: int) -> Seq<
    char,
>
    decreases 8 - file_idx,
{
    if file_idx >= 8 {
        seq!['\n']
    } else {
        seq![display_cell(cell_at(grid, file_idx, rank_idx))] + display_row_from(
            grid,
            rank_idx,
            file_idx + 1,
        )
    }
}

/// The board diagram from rank index `rank_idx` down to rank index 0, one
/// row per rank, rank 8 printed first so White sits at the bottom.
pub open spec fn display_down(grid: Seq<Option<Piece>>, rank_idx: int) -> Seq<char>
    decreases rank_idx,
{
    if rank_idx <= 0 {
        display_row_from(grid, 0, 0)
    } else {
        display_row_from(grid, rank_idx, 0) + display_down(grid, rank_idx - 1)
    }
}

/// The pieces of the occupied cells of a grid, in grid order.
pub open spec fn occupied_pieces(grid: Seq<Option<Piece>>) -> Seq<Piece>
    decreases grid.len(),
{
    if grid.len() == 0 {
        Seq::<Piece>::empty()
    } else {
        occupied_pieces(grid.drop_last()) + match grid.last() {
            Some(piece) => seq![piece],
            None => Seq::<Piece>::empty(),
        }
    }
}

/// An 8x8 grid of optional pieces, together with the side to move and the
/// castling rights. The grid is the sole owner of the pieces on it.
pub struct Board {
    board: Vec<Option<Piece>>,
    to_move: PieceColor,
    castling_rights: CastlingRights,
}

impl Board {
    /// The grid as a sequence of 64 cells, file-major.
    pub closed spec fn grid(self) -> Seq<Option<Piece>> {
        self.board@
    }

    /// The side that acts next.
    pub closed spec fn side_to_move(self) -> PieceColor {
        self.to_move
    }

    /// The castling flags the board carries.
    pub closed spec fn castling(self) -> CastlingRights {
        self.castling_rights
    }

    /// Well-formedness: 64 cells, and every occupant reports the square of
    /// its own cell as its position.
    pub open spec fn wf(self) -> bool {
        self.grid().len() == 64 && forall|f: int, r: int|
            0 <= f < 8 && 0 <= r < 8 ==> #[trigger] cell_ok(self.grid(), f, r)
    }

    /// A board with no pieces, White to move, all castling rights available.
    pub fn empty() -> (board: Board)
        ensures
            board.wf(),
            board.grid().len() == 64,
            forall|i: int| 0 <= i < 64 ==> board.grid()[i] is None,
            board.side_to_move() == PieceColor::White,
            board.castling() == (CastlingRights {
                white_kingside: true,
                white_queenside: true,
                black_kingside: true,
                black_queenside: true,
            }),
    {
        let mut cells: Vec<Option<Piece>> = Vec::new();
        let mut i: usize = 0;
        while i < 64
            invariant
                i <= 64,
                cells@.len() == i,
                forall|j: int| 0 <= j < i ==> cells@[j] is None,
            decreases 64 - i,
        {
            cells.push(None);
            i += 1;
        }
        Board { board: cells, to_move: PieceColor::White, castling_rights: CastlingRights::default() }
    }

    /// The occupant of the given square, or `None` when it is empty.
    pub fn get_piece_by_position(&self, pos: Position) -> (piece: Option<Piece>)
        requires
            self.wf(),
            pos.is_valid(),
        ensures
            piece == self.grid()[cell_index(pos)],
    {
        let (file_idx, rank_idx) = pos.get_indices();
        self.board[file_idx * 8 + rank_idx]
    }

    /// Puts `piece` down on its own square, overwriting any occupant there.
    pub fn add_piece(&mut self, piece: Piece)
        requires
            old(self).wf(),
            piece.is_valid(),
        ensures
            final(self).wf(),
            final(self).grid() == spec_place(old(self).grid(), piece),
            final(self).side_to_move() == old(self).side_to_move(),
            final(self).castling() == old(self).castling(),
    {
        let (file_idx, rank_idx) = piece.get_position().get_indices();
        self.board[file_idx * 8 + rank_idx] = Some(piece);
        proof {
            let g0 = old(self).grid();
            let g1 = self.grid();
            let idx = cell_index(piece.position());
            assert forall|f: int, r: int| 0 <= f < 8 && 0 <= r < 8 implies #[trigger] cell_ok(
                g1,
                f,
                r,
            ) by {
                assert(cell_ok(g0, f, r));
                if f * 8 + r != idx {
                    assert(g1[f * 8 + r] == g0[f * 8 + r]);
                }
            }
        }
    }

    /// All pieces standing on the board: exactly the occupants of the
    /// occupied cells, in grid order.
    pub fn get_flat_pieces(&self) -> (pieces: Vec<Piece>)
        requires
            self.wf(),
        ensures
            pieces@ == occupied_pieces(self.grid()),
    {
        let mut pieces: Vec<Piece> = Vec::new();
        let mut i: usize = 0;
        while i < 64
            invariant
                self.wf(),
                i <= 64,
                pieces@ == occupied_pieces(self.grid().take(i as int)),
            decreases 64 - i,
        {
            match self.board[i] {
                Some(piece) => pieces.push(piece),
                None => (),
            }
            proof {
                let taken = self.grid().take(i + 1);
                assert(taken.drop_last() =~= self.grid().take(i as int));
                assert(taken.last() == self.grid()[i as int]);
                assert(pieces@ =~= occupied_pieces(taken));
            }
            i += 1;
        }
        proof {
            assert(self.grid().take(64) =~= self.grid());
        }
        pieces
    }

    /// Lifts the occupant of `from` and puts it down on `to`, updating the
    /// square it stores and overwriting any occupant of `to`. Fails, leaving
    /// the board unchanged, exactly when `from` is empty.
    pub fn move_piece_from_to(&mut self, from: Position, to: Position) -> (result: Result<
        (),
        ChessError,
    >)
        requires
            old(self).wf(),
            from.is_valid(),
            to.is_valid(),
        ensures
            final(self).wf(),
            final(self).side_to_move() == old(self).side_to_move(),
            final(self).castling() == old(self).castling(),
            match old(self).grid()[cell_index(from)] {
                Some(piece) => result == Ok::<(), ChessError>(()) && final(self).grid()
                    == spec_move(old(self).grid(), from, to, piece),
                None => result == Err::<(), ChessError>(ChessError::EmptySourceSquare)
                    && final(self).grid() == old(self).grid(),
            },
    {
        let (from_file, from_rank) = from.get_indices();
        let (to_file, to_rank) = to.get_indices();

        match self.board[from_file * 8 + from_rank] {
            Some(piece) => {
                self.board[from_file * 8 + from_rank] = None;
                let moved = piece.copy_with_new_position(to);
                self.board[to_file * 8 + to_rank] = Some(moved);
                proof {
                    let g0 = old(self).grid();
                    let g1 = self.grid();
                    let to_idx = cell_index(to);
                    assert forall|f: int, r: int| 0 <= f < 8 && 0 <= r < 8 implies #[trigger] cell_ok(
                        g1,
                        f,
                        r,
                    ) by {
                        assert(cell_ok(g0, f, r));
                        if f * 8 + r == to_idx {
                            assert(g1[f * 8 + r] == Some(moved));
                        }
                    }
                }
                Ok(())
            },
            None => Err(ChessError::EmptySourceSquare),
        }
    }

    /// The whole FEN line of the board: placement, side to move, castling,
    /// then the untracked en-passant, half-move and full-move fields.
    pub open spec fn fen_spec(self) -> Seq<char> {
        placement_fen_down(self.grid(), 7) + seq![' ', side_char(self.side_to_move()), ' ']
            + self.castling().fen_spec() + seq![' ', '-', ' ', '0', ' ', '1']
    }

    /// Serializes the board to its FEN line: eight rank runs from rank 8
    /// down to rank 1 separated by '/', then "w" or "b", the castling
    /// letters, and "- 0 1" for the fields the board does not track.
    pub fn get_fen(&self) -> (fen: String)
        requires
            self.wf(),
        ensures
            fen@ == self.fen_spec(),
    {
        let mut chars: Vec<char> = Vec::new();
        let mut rank_left: usize = 8;
        while rank_left > 0
            invariant
                rank_left <= 8,
                self.wf(),
                rank_left > 0 ==> chars@ + placement_fen_down(self.grid(), rank_left as int - 1)
                    == placement_fen_down(self.grid(), 7),
                rank_left == 0 ==> chars@ == placement_fen_down(self.grid(), 7),
            decreases rank_left,
        {
            rank_left -= 1;
            let rank_idx = rank_left;
            let ghost rank_start = chars@;
            let mut empties: usize = 0;
            let mut f: usize = 0;
            while f < 8
                invariant
                    f <= 8,
                    empties <= f,
                    self.wf(),
                    rank_idx < 8,
                    chars@ + rank_fen_from(self.grid(), rank_idx as int, f as int, empties as int)
                        == rank_start + rank_fen(self.grid(), rank_idx as int),
                decreases 8 - f,
            {
                let ghost before = chars@;
                let ghost pending = empties as int;
                match self.board[f * 8 + rank_idx] {
                    Some(piece) => {
                        if empties > 0 {
                            chars.push(Board::empties_digit(empties));
                            empties = 0;
                        }
                        chars.push(piece.get_char(false));
                        proof {
                            let g = self.grid();
                            let rest = rank_fen_from(g, rank_idx as int, f as int + 1, 0);
                            assert(chars@ + rest =~= before + rank_fen_from(
                                g,
                                rank_idx as int,
                                f as int,
                                pending,
                            ));
                        }
                    },
                    None => {
                        empties += 1;
                    },
                }
                f += 1;
            }
            if empties > 0 {
                chars.push(Board::empties_digit(empties));
            }
            proof {
                assert(chars@ =~= rank_start + rank_fen(self.grid(), rank_idx as int));
            }
            if rank_left > 0 {
                chars.push('/');
                proof {
                    assert(chars@ + placement_fen_down(self.grid(), rank_idx as int - 1)
                        =~= rank_start + placement_fen_down(self.grid(), rank_idx as int));
                }
            }
        }
        chars.push(' ');
        match self.to_move {
            PieceColor::White => chars.push('w'),
            PieceColor::Black => chars.push('b'),
        }
        chars.push(' ');
        let mut castling_chars = self.castling_rights.fen_chars();
        chars.append(&mut castling_chars);
        chars.push(' ');
        chars.push('-');
        chars.push(' ');
        chars.push('0');
        chars.push(' ');
        chars.push('1');
        proof {
            assert(chars@ =~= self.fen_spec());
        }
        chars_to_string(&chars)
    }

    /// The terminal diagram of the board: eight rows of eight glyph-or-blank
    /// characters, each closed by a newline.
    pub open spec fn display_spec(self) -> Seq<char> {
        display_down(self.grid(), 7)
    }

    /// Renders the board as a terminal diagram, one row per rank, rank 8
    /// first; it agrees square for square with `get_piece_by_position`.
    pub fn get_display(&self) -> (display: String)
        requires
            self.wf(),
        ensures
            display@ == self.display_spec(),
    {
        let mut chars: Vec<char> = Vec::new();
        let mut rank_left: usize = 8;
        while rank_left > 0
            invariant
                rank_left <= 8,
                self.wf(),
                rank_left > 0 ==> chars@ + display_down(self.grid(), rank_left as int - 1)
                    == display_down(self.grid(), 7),
                rank_left == 0 ==> chars@ == display_down(self.grid(), 7),
            decreases rank_left,
        {
            rank_left -= 1;
            let rank_idx = rank_left;
            let ghost row_start = chars@;
            let mut f: usize = 0;
            while f < 8
                invariant
                    f <= 8,
                    self.wf(),
                    rank_idx < 8,
                    chars@ + display_row_from(self.grid(), rank_idx as int, f as int) == row_start
                        + display_row_from(self.grid(), rank_idx as int, 0),
                decreases 8 - f,
            {
                let ghost before = chars@;
                match self.board[f * 8 + rank_idx] {
                    Some(piece) => chars.push(piece.get_char(true)),
                    None => chars.push(' '),
                }
                proof {
                    let g = self.grid();
                    assert(chars@ + display_row_from(g, rank_idx as int, f as int + 1) =~= before
                        + display_row_from(g, rank_idx as int, f as int));
                }
                f += 1;
            }
            chars.push('\n');
            proof {
                let g = self.grid();
                assert(chars@ =~= row_start + display_row_from(g, rank_idx as int, 0));
                if rank_idx > 0 {
                    assert(chars@ + display_down(g, rank_idx as int - 1) =~= row_start
                        + display_down(g, rank_idx as int));
                }
            }
        }
        chars_to_string(&chars)
    }

    /// The digit character of a run of `count` empty squares.
    fn empties_digit(count: usize) -> (c: char)
        requires
            1 <= count <= 8,
        ensures
            c == digit_char(count as int),
    {
        match count {
            1 => '1',
            2 => '2',
            3 => '3',
            4 => '4',
            5 => '5',
            6 => '6',
            7 => '7',
            _ => '8',
        }
    }

    /// Places the 32 pieces of the standard starting position: the cells the
    /// starting position occupies are overwritten, every other cell keeps
    /// what it held.
    pub fn add_default_pieces(&mut self)
        requires
            old(self).wf(),
        ensures
            final(self).wf(),
            forall|f: int, r: int|
                0 <= f < 8 && 0 <= r < 8 ==> #[trigger] cell_at(final(self).grid(), f, r) == (
                if initial_piece(f, r) is Some {
                    initial_piece(f, r)
                } else {
                    cell_at(old(self).grid(), f, r)
                }),
            final(self).side_to_move() == old(self).side_to_move(),
            final(self).castling() == old(self).castling(),
    {
        self.add_piece(Piece::Rook(PieceColor::White, Position('a', '1')));
        self.add_piece(Piece::Knight(PieceColor::White, Position('b', '1')));
        self.add_piece(Piece::Bishop(PieceColor::White, Position('c', '1')));
        self.add_piece(Piece::Queen(PieceColor::White, Position('d', '1')));
        self.add_piece(Piece::King(PieceColor::White, Position('e', '1')));
        self.add_piece(Piece::Bishop(PieceColor::White, Position('f', '1')));
        self.add_piece(Piece::Knight(PieceColor::White, Position('g', '1')));
        self.add_piece(Piece::Rook(PieceColor::White, Position('h', '1')));

        let ghost mid_grid = self.grid();
        let ghost side0 = self.side_to_move();
        let ghost castle0 = self.castling();
        let mut file_idx: usize = 0;
        while file_idx < 8
            invariant
                file_idx <= 8,
                self.wf(),
                self.side_to_move() == side0,
                self.castling() == castle0,
                forall|f: int, r: int|
                    0 <= f < 8 && 0 <= r < 8 ==> #[trigger] cell_at(self.grid(), f, r) == (
                    if r == 1 && f < file_idx as int {
                        Some(Piece::Pawn(PieceColor::White, Position(file_char(f), '2')))
                    } else if r == 6 && f < file_idx as int {
                        Some(Piece::Pawn(PieceColor::Black, Position(file_char(f), '7')))
                    } else {
                        cell_at(mid_grid, f, r)
                    }),
            decreases 8 - file_idx,
        {
            let ghost prev_grid = self.grid();
            let white_pos = Position::new_from_indices(BoardIndex(file_idx, 1)).unwrap();
            let black_pos = Position::new_from_indices(BoardIndex(file_idx, 6)).unwrap();
            self.add_piece(Piece::Pawn(PieceColor::White, white_pos));
            self.add_piece(Piece::Pawn(PieceColor::Black, black_pos));
            proof {
                assert(file_index(file_char(file_idx as int)) == file_idx as int);
                assert forall|f: int, r: int| 0 <= f < 8 && 0 <= r < 8 implies #[trigger] cell_at(
                    self.grid(),
                    f,
                    r,
                ) == (if r == 1 && f < file_idx as int + 1 {
                    Some(Piece::Pawn(PieceColor::White, Position(file_char(f), '2')))
                } else if r == 6 && f < file_idx as int + 1 {
                    Some(Piece::Pawn(PieceColor::Black, Position(file_char(f), '7')))
                } else {
                    cell_at(mid_grid, f, r)
                }) by {
                    // Mentioning the previous grid's cell instantiates the
                    // invariant that held before the two placements.
                    let prev_cell = cell_at(prev_grid, f, r);
                    assert(0 <= f * 8 + r < 64);
                }
            }
            file_idx += 1;
        }
        let ghost pawn_grid = self.grid();

        self.add_piece(Piece::Rook(PieceColor::Black, Position('a', '8')));
        self.add_piece(Piece::Knight(PieceColor::Black, Position('b', '8')));
        self.add_piece(Piece::Bishop(PieceColor::Black, Position('c', '8')));
        self.add_piece(Piece::Queen(PieceColor::Black, Position('d', '8')));
        self.add_piece(Piece::King(PieceColor::Black, Position('e', '8')));
        self.add_piece(Piece::Bishop(PieceColor::Black, Position('f', '8')));
        self.add_piece(Piece::Knight(PieceColor::Black, Position('g', '8')));
        self.add_piece(Piece::Rook(PieceColor::Black, Position('h', '8')));

        proof {
            assert forall|f: int, r: int| 0 <= f < 8 && 0 <= r < 8 implies #[trigger] cell_at(
                self.grid(),
                f,
                r,
            ) == (if initial_piece(f, r) is Some {
                initial_piece(f, r)
            } else {
                cell_at(old(self).grid(), f, r)
            }) by {
                // Mentioning the pawn-stage cell instantiates the loop's
                // exit invariant for this square.
                let pawn_cell = cell_at(pawn_grid, f, r);
                assert(0 <= f * 8 + r < 64);
            }
        }
    }
}

impl Default for Board {
    /// The standard starting position: all 32 pieces placed, White to move,
    /// all castling rights available.
    fn default() -> (board: Board)
        ensures
            board.wf(),
            forall|f: int, r: int|
                0 <= f < 8 && 0 <= r < 8 ==> #[trigger] cell_at(board.grid(), f, r)
                    == initial_piece(f, r),
            board.side_to_move() == PieceColor::White,
            board.castling() == (CastlingRights {
                white_kingside: true,
                white_queenside: true,
                black_kingside: true,
                black_queenside: true,
            }),
    {
        let mut board = Board::empty();
        let ghost empty_grid = board.grid();
        board.add_default_pieces();
        proof {
            assert forall|f: int, r: int| 0 <= f < 8 && 0 <= r < 8 implies #[trigger] cell_at(
                board.grid(),
                f,
                r,
            ) == initial_piece(f, r) by {
                assert(0 <= f * 8 + r < 64);
                assert(cell_at(empty_grid, f, r) is None);
            }
        }
        board
    }
}

/// Putting the same piece down twice leaves exactly the grid that putting it
/// down once leaves: the second placement overwrites the first with the same
/// value.
pub proof fn lemma_place_idempotent(grid: Seq<Option<Piece>>, piece: Piece)
    requires
        piece.is_valid(),
        grid.len() == 64,
    ensures
        spec_place(spec_place(grid, piece), piece) == spec_place(grid, piece),
{
    assert(spec_place(spec_place(grid, piece), piece) =~= spec_place(grid, piece));
}

/// A piece is among the flattened pieces of a grid exactly when some cell of
/// the grid holds it: flattening keeps every occupant and invents none.
pub proof fn lemma_occupied_pieces_contains(grid: Seq<Option<Piece>>, piece: Piece)
    ensures
        occupied_pieces(grid).contains(piece) <==> (exists|i: int|
            0 <= i < grid.len() && grid[i] == Some(piece)),
    decreases grid.len(),
{
    if grid.len() == 0 {
    } else {
        let front = grid.drop_last();
        let flat = occupied_pieces(grid);
        let flat_front = occupied_pieces(front);
        lemma_occupied_pieces_contains(front, piece);
        if flat.contains(piece) {
            let k = choose|k: int| 0 <= k < flat.len() && flat[k] == piece;
            if k < flat_front.len() {
                assert(flat_front[k] == piece);
                assert(flat_front.contains(piece));
                let i = choose|i: int| 0 <= i < front.len() && front[i] == Some(piece);
                assert(grid[i] == Some(piece));
            } else {
                assert(grid.last() == Some(piece));
                assert(grid[grid.len() - 1] == Some(piece));
            }
        }
        if exists|i: int| 0 <= i < grid.len() && grid[i] == Some(piece) {
            let i = choose|i: int| 0 <= i < grid.len() && grid[i] == Some(piece);
            if i < grid.len() - 1 {
                assert(front[i] == Some(piece));
                assert(flat_front.contains(piece));
                let k = choose|k: int|
                    0 <= k < flat_front.len() && flat_front[k] == piece;
                assert(flat[k] == piece);
                assert(flat.contains(piece));
            } else {
                assert(grid.last() == Some(piece));
                assert(flat[flat_front.len() as int] == piece);
                assert(flat.contains(piece));
            }
        }
    }
}

/// In a grid whose occupants each determine their own cell, flattening
/// repeats no piece: a piece names its square, and a square has one cell.
pub proof fn lemma_occupied_pieces_distinct(grid: Seq<Option<Piece>>)
    requires
        forall|i: int|
            0 <= i < grid.len() ==> ((#[trigger] grid[i]) matches Some(piece)
                ==> cell_index(piece.position()) == i),
    ensures
        forall|k1: int, k2: int|
            0 <= k1 < k2 < occupied_pieces(grid).len() ==> occupied_pieces(grid)[k1]
                != occupied_pieces(grid)[k2],
    decreases grid.len(),
{
    if grid.len() == 0 {
    } else {
        let front = grid.drop_last();
        let flat = occupied_pieces(grid);
        let flat_front = occupied_pieces(front);
        let n = grid.len() - 1;
        assert(forall|i: int| 0 <= i < front.len() ==> front[i] == #[trigger] grid[i]);
        lemma_occupied_pieces_distinct(front);
        assert forall|k1: int, k2: int| 0 <= k1 < k2 < flat.len() implies flat[k1] != flat[k2] by {
            if k2 < flat_front.len() {
                assert(flat[k1] == flat_front[k1]);
                assert(flat[k2] == flat_front[k2]);
            } else {
                assert(grid.last() is Some);
                let q = flat[k2];
                assert(grid[n] == Some(q));
                assert(flat[k1] == flat_front[k1]);
                if flat_front[k1] == q {
                    assert(flat_front.contains(q));
                    lemma_occupied_pieces_contains(front, q);
                    let i = choose|i: int| 0 <= i < front.len() && front[i] == Some(q);
                    assert(cell_index(q.position()) == i);
                    assert(cell_index(q.position()) == n);
                    assert(false);
                }
            }
        }
    }
}

/// On a well-formed board the flattened pieces hold no piece twice: two
/// occupied cells always hold pieces standing on different squares.
pub proof fn lemma_flat_pieces_distinct(board: Board)
    requires
        board.wf(),
    ensures
        forall|k1: int, k2: int|
            0 <= k1 < k2 < occupied_pieces(board.grid()).len() ==> occupied_pieces(board.grid())[k1]
                != occupied_pieces(board.grid())[k2],
{
    let grid = board.grid();
    assert forall|i: int|
        0 <= i < grid.len() implies ((#[trigger] grid[i]) matches Some(piece)
        ==> cell_index(piece.position()) == i) by {
        let f = i / 8;
        let r = i % 8;
        assert(cell_ok(grid, f, r));
        assert(f * 8 + r == i);
    }
    lemma_occupied_pieces_distinct(grid);
}

} // verus!
