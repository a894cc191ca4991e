use chessboard::board::Board;
use chessboard::error::ChessError;
use chessboard::piece::Piece;
use chessboard::piece::PieceColor;
use chessboard::position::Position;

#[test]
fn it_adds_piece_to_a_board() {
    let mut board = Board::empty();
    board.add_piece(Piece::Queen(PieceColor::Black, Position::new('a', '1').unwrap()));

    assert!(board.get_piece_by_position(Position('a', '1')).is_some());
}

#[test]
fn it_returns_a_piece_by_position() {
    let mut board = Board::empty();
    board.add_piece(Piece::Queen(PieceColor::Black, Position::new('a', '1').unwrap()));

    let piece = board.get_piece_by_position(Position('a', '1'));

    assert!(piece.is_some());
}

#[test]
fn it_returns_a_piece_by_position_from_default_board() {
    let board = Board::default();

    let piece = board.get_piece_by_position(Position('h', '1'));

    assert!(piece.is_some());
}

#[test]
fn it_moves_a_piece() {
    let mut board = Board::default();

    let res = board.move_piece_from_to(Position('a', '1'), Position('b', '1'));
    assert!(res.is_ok());

    let old_square = board.get_piece_by_position(Position('a', '1'));
    assert!(old_square.is_none());

    let new_square = board.get_piece_by_position(Position('b', '1'));
    assert!(new_square.is_some())
}

#[test]
fn it_gets_pieces() {
    let mut board = Board::empty();
    board.add_piece(Piece::King(PieceColor::Black, Position('e', '8')));
    board.add_piece(Piece::Bishop(PieceColor::White, Position('c', '1')));

    let pieces = board.get_flat_pieces();
    assert_eq!(pieces.len(), 2)
}

#[test]
fn it_returns_error_when_moving_from_position_with_no_piece() {
    let mut board = Board::default();
    let res = board.move_piece_from_to(Position('e', '4'), Position('e', '5'));
    assert!(res.is_err())
}

#[test]
fn it_creates_fen_from_default_position() {
    let board = Board::default();
    let fen = board.get_fen();

    assert_eq!(
        fen,
        "rnbqkbnr/pppppppp/8/8/8/8/PPPPPPPP/RNBQKBNR w KQkq - 0 1"
    );
}

#[test]
fn the_default_board_has_the_standard_layout() {
    let board = Board::default();

    let files = ['a', 'b', 'c', 'd', 'e', 'f', 'g', 'h'];
    for file in files {
        assert_eq!(
            board.get_piece_by_position(Position(file, '2')),
            Some(Piece::Pawn(PieceColor::White, Position(file, '2')))
        );
        assert_eq!(
            board.get_piece_by_position(Position(file, '7')),
            Some(Piece::Pawn(PieceColor::Black, Position(file, '7')))
        );
        for rank in ['3', '4', '5', '6'] {
            assert_eq!(board.get_piece_by_position(Position(file, rank)), None);
        }
    }

    for (color, rank) in [(PieceColor::White, '1'), (PieceColor::Black, '8')] {
        let back = [
            board.get_piece_by_position(Position('a', rank)),
            board.get_piece_by_position(Position('b', rank)),
            board.get_piece_by_position(Position('c', rank)),
            board.get_piece_by_position(Position('d', rank)),
            board.get_piece_by_position(Position('e', rank)),
            board.get_piece_by_position(Position('f', rank)),
            board.get_piece_by_position(Position('g', rank)),
            board.get_piece_by_position(Position('h', rank)),
        ];
        assert_eq!(back[0], Some(Piece::Rook(color, Position('a', rank))));
        assert_eq!(back[1], Some(Piece::Knight(color, Position('b', rank))));
        assert_eq!(back[2], Some(Piece::Bishop(color, Position('c', rank))));
        assert_eq!(back[3], Some(Piece::Queen(color, Position('d', rank))));
        assert_eq!(back[4], Some(Piece::King(color, Position('e', rank))));
        assert_eq!(back[5], Some(Piece::Bishop(color, Position('f', rank))));
        assert_eq!(back[6], Some(Piece::Knight(color, Position('g', rank))));
        assert_eq!(back[7], Some(Piece::Rook(color, Position('h', rank))));
    }
}

#[test]
fn the_default_board_has_thirty_two_pieces_sixteen_per_color() {
    let board = Board::default();
    let pieces = board.get_flat_pieces();

    assert_eq!(pieces.len(), 32);
    let whites = pieces
        .iter()
        .filter(|piece| piece.get_color() == PieceColor::White)
        .count();
    let blacks = pieces
        .iter()
        .filter(|piece| piece.get_color() == PieceColor::Black)
        .count();
    assert_eq!(whites, 16);
    assert_eq!(blacks, 16);
}

#[test]
fn the_h1_corner_of_the_default_board_holds_a_white_rook() {
    let board = Board::default();
    assert_eq!(
        board.get_piece_by_position(Position('h', '1')),
        Some(Piece::Rook(PieceColor::White, Position('h', '1')))
    );
}

#[test]
fn moving_updates_the_coordinate_stored_in_the_piece() {
    let mut board = Board::default();

    let res = board.move_piece_from_to(Position('a', '1'), Position('b', '1'));
    assert_eq!(res, Ok(()));

    assert_eq!(board.get_piece_by_position(Position('a', '1')), None);
    assert_eq!(
        board.get_piece_by_position(Position('b', '1')),
        Some(Piece::Rook(PieceColor::White, Position('b', '1')))
    );
}

#[test]
fn a_failed_move_reports_the_empty_source_and_changes_nothing() {
    let mut board = Board::default();
    let fen_before = board.get_fen();

    let res = board.move_piece_from_to(Position('e', '4'), Position('e', '5'));
    assert_eq!(res, Err(ChessError::EmptySourceSquare));

    assert_eq!(board.get_piece_by_position(Position('e', '4')), None);
    assert_eq!(board.get_piece_by_position(Position('e', '5')), None);
    assert_eq!(board.get_fen(), fen_before);
}

#[test]
fn moving_onto_an_occupied_square_overwrites_the_occupant() {
    let mut board = Board::empty();
    board.add_piece(Piece::Rook(PieceColor::White, Position('c', '5')));
    board.add_piece(Piece::Pawn(PieceColor::Black, Position('f', '5')));

    let res = board.move_piece_from_to(Position('c', '5'), Position('f', '5'));
    assert_eq!(res, Ok(()));

    assert_eq!(board.get_piece_by_position(Position('c', '5')), None);
    assert_eq!(
        board.get_piece_by_position(Position('f', '5')),
        Some(Piece::Rook(PieceColor::White, Position('f', '5')))
    );
    assert_eq!(board.get_flat_pieces().len(), 1);
}

#[test]
fn flat_pieces_hold_exactly_the_placed_pieces() {
    let mut board = Board::empty();
    let king = Piece::King(PieceColor::Black, Position('e', '8'));
    let bishop = Piece::Bishop(PieceColor::White, Position('c', '1'));
    board.add_piece(king);
    board.add_piece(bishop);

    let pieces = board.get_flat_pieces();
    assert_eq!(pieces.len(), 2);
    assert!(pieces.contains(&king));
    assert!(pieces.contains(&bishop));
}

#[test]
fn placing_a_piece_twice_equals_placing_it_once() {
    let mut once = Board::empty();
    let mut twice = Board::empty();
    let queen = Piece::Queen(PieceColor::White, Position('d', '4'));
    once.add_piece(queen);
    twice.add_piece(queen);
    twice.add_piece(queen);

    assert_eq!(once.get_fen(), twice.get_fen());
    for file in ['a', 'b', 'c', 'd', 'e', 'f', 'g', 'h'] {
        for rank in ['1', '2', '3', '4', '5', '6', '7', '8'] {
            assert_eq!(
                once.get_piece_by_position(Position(file, rank)),
                twice.get_piece_by_position(Position(file, rank))
            );
        }
    }
}

#[test]
fn empty_runs_collapse_to_digits_in_fen() {
    let mut board = Board::empty();
    board.add_piece(Piece::Rook(PieceColor::White, Position('c', '5')));
    board.add_piece(Piece::King(PieceColor::Black, Position('f', '5')));

    assert_eq!(board.get_fen(), "8/8/8/2R2k2/8/8/8/8 w KQkq - 0 1");
}

#[test]
fn an_empty_board_encodes_as_eight_empty_ranks() {
    let board = Board::empty();
    assert_eq!(board.get_fen(), "8/8/8/8/8/8/8/8 w KQkq - 0 1");
}

#[test]
fn the_display_shows_rank_eight_first() {
    let board = Board::default();
    let expected =
        "♖♘♗♛♚♗♘♖\n♙♙♙♙♙♙♙♙\n        \n        \n        \n        \n♟♟♟♟♟♟♟♟\n♜♞♝♕♔♝♞♜\n";
    assert_eq!(board.get_display(), expected);
}
