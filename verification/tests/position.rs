use chessboard::error::ChessError;
use chessboard::position::BoardIndex;
use chessboard::position::Position;

#[test]
fn it_creates_position() {
    let pos: Position = Position::new('a', '2').unwrap();
    assert_eq!(pos.0, 'a');
    assert_eq!(pos.1, '2');
}

#[test]
fn it_returns_correct_board_index() {
    let pos1 = Position::new('a', '1').unwrap();
    let pos2 = Position::new('e', '4').unwrap();
    let pos3 = Position::new('h', '8').unwrap();

    assert_eq!(pos1.get_indices(), (0, 0));
    assert_eq!(pos2.get_indices(), (4, 3));
    assert_eq!(pos3.get_indices(), (7, 7));
}

#[test]
fn it_returns_correct_position_for_indices() {
    let i1 = BoardIndex(0, 0);
    let i2 = BoardIndex(4, 3);
    let i3 = BoardIndex(7, 7);

    assert!(Position::new_from_indices(i1).unwrap() == Position::new('a', '1').unwrap());
    assert!(Position::new_from_indices(i2).unwrap() == Position::new('e', '4').unwrap());
    assert!(Position::new_from_indices(i3).unwrap() == Position::new('h', '8').unwrap());
}

#[test]
fn it_rejects_incorrect_position_file() {
    assert_eq!(Position::new('k', '2'), Err(ChessError::InvalidCoordinate));
}

#[test]
fn it_rejects_incorrect_position_rank() {
    assert_eq!(Position::new('b', '9'), Err(ChessError::InvalidCoordinate));
}

#[test]
fn it_rejects_incorrect_rank_index() {
    assert_eq!(
        Position::new_from_indices(BoardIndex(2, 20)),
        Err(ChessError::InvalidCoordinate)
    );
}

#[test]
fn it_rejects_incorrect_position_file_index() {
    assert_eq!(
        Position::new_from_indices(BoardIndex(9, 2)),
        Err(ChessError::InvalidCoordinate)
    );
}

#[test]
fn validate_accepts_exactly_the_board_squares() {
    assert!(Position::validate('a', '1'));
    assert!(Position::validate('h', '8'));
    assert!(!Position::validate('i', '1'));
    assert!(!Position::validate('a', '0'));
    assert!(!Position::validate('`', '5'));
    assert!(!Position::validate('d', '9'));
}

#[test]
fn every_square_round_trips_through_its_indices() {
    for file in ['a', 'b', 'c', 'd', 'e', 'f', 'g', 'h'] {
        for rank in ['1', '2', '3', '4', '5', '6', '7', '8'] {
            let pos = Position::new(file, rank).unwrap();
            let (file_idx, rank_idx) = pos.get_indices();
            let back = Position::new_from_indices(BoardIndex(file_idx, rank_idx)).unwrap();
            assert_eq!(back, pos);
        }
    }
}

#[test]
fn every_index_pair_round_trips_through_its_square() {
    for file_idx in 0..8usize {
        for rank_idx in 0..8usize {
            let pos = Position::new_from_indices(BoardIndex(file_idx, rank_idx)).unwrap();
            assert_eq!(pos.get_indices(), (file_idx, rank_idx));
        }
    }
}
