use tictactoe::gameboard::{GameBoard, PlaceError, Square};

#[test]
fn fresh_board_cells_all_empty() {
    for size in [1usize, 3, 5] {
        let board = GameBoard::new(size);
        for row in 0usize..size {
            for column in 0usize..size {
                assert_eq!(board.get_square(row, column), Square::EMPTY);
            }
        }
    }
}

#[test]
fn place_into_empty_cell_succeeds_and_mark_stays() {
    let mut board = GameBoard::new(3);
    assert_eq!(board.place_player(Square::X, 0, 0), Ok(false));
    assert_eq!(board.get_square(0, 0), Square::X);
    assert_eq!(board.place_player(Square::O, 0, 0), Err(PlaceError::AlreadyOccupied));
    assert_eq!(board.get_square(0, 0), Square::X);
}

#[test]
fn occupied_cell_rejected_without_mutation() {
    let mut board = GameBoard::new(3);
    assert_eq!(board.place_player(Square::X, 1, 1), Ok(false));
    assert_eq!(board.place_player(Square::O, 0, 2), Ok(false));

    let mut before: Vec<Square> = Vec::new();
    for row in 0usize..3 {
        for column in 0usize..3 {
            before.push(board.get_square(row, column));
        }
    }

    assert_eq!(board.place_player(Square::O, 1, 1), Err(PlaceError::AlreadyOccupied));
    assert_eq!(board.place_player(Square::X, 0, 2), Err(PlaceError::AlreadyOccupied));

    let mut i: usize = 0;
    for row in 0usize..3 {
        for column in 0usize..3 {
            assert_eq!(board.get_square(row, column), before[i]);
            i += 1;
        }
    }
}

#[test]
fn off_board_location_rejected_without_mutation() {
    let mut board = GameBoard::new(3);
    assert_eq!(board.place_player(Square::X, 2, 3), Err(PlaceError::OffBoard));
    assert_eq!(board.place_player(Square::X, 3, 2), Err(PlaceError::OffBoard));
    assert_eq!(board.place_player(Square::O, 5, 0), Err(PlaceError::OffBoard));
    assert_eq!(board.place_player(Square::O, 0, 5), Err(PlaceError::OffBoard));
    for row in 0usize..3 {
        for column in 0usize..3 {
            assert_eq!(board.get_square(row, column), Square::EMPTY);
        }
    }
}

#[test]
fn bounds_rule_tests_only_the_sum_of_the_indices() {
    let board = GameBoard::new(3);
    assert!(board.is_on_board(0, 0));
    assert!(board.is_on_board(2, 2));
    // A single index past the side is still accepted while the sum stays
    // under the threshold.
    assert!(board.is_on_board(4, 0));
    assert!(board.is_on_board(0, 4));
    assert!(!board.is_on_board(2, 3));
    assert!(!board.is_on_board(3, 2));
}

#[test]
fn flat_addressing_wraps_a_wide_column_index_into_the_next_row() {
    let mut board = GameBoard::new(3);
    assert_eq!(board.place_player(Square::X, 1, 1), Ok(false));
    // (0, 4) passes the bounds rule and addresses flat cell 4, which is
    // the grid cell (1, 1).
    assert_eq!(board.get_square(0, 4), Square::X);
}

#[test]
fn row_win_on_third_placement() {
    let mut board = GameBoard::new(3);
    assert_eq!(board.place_player(Square::X, 0, 0), Ok(false));
    assert_eq!(board.place_player(Square::O, 2, 0), Ok(false));
    assert_eq!(board.place_player(Square::X, 0, 1), Ok(false));
    assert_eq!(board.place_player(Square::O, 2, 1), Ok(false));
    assert_eq!(board.place_player(Square::X, 0, 2), Ok(true));
}

#[test]
fn column_win_on_third_placement() {
    let mut board = GameBoard::new(3);
    assert_eq!(board.place_player(Square::X, 0, 0), Ok(false));
    assert_eq!(board.place_player(Square::O, 1, 2), Ok(false));
    assert_eq!(board.place_player(Square::X, 1, 0), Ok(false));
    assert_eq!(board.place_player(Square::O, 2, 2), Ok(false));
    assert_eq!(board.place_player(Square::X, 2, 0), Ok(true));
}

#[test]
fn diagonal_win_on_third_placement() {
    let mut board = GameBoard::new(3);
    assert_eq!(board.place_player(Square::X, 0, 0), Ok(false));
    assert_eq!(board.place_player(Square::O, 0, 1), Ok(false));
    assert_eq!(board.place_player(Square::X, 1, 1), Ok(false));
    assert_eq!(board.place_player(Square::O, 0, 2), Ok(false));
    assert_eq!(board.place_player(Square::X, 2, 2), Ok(true));
}

#[test]
fn anti_diagonal_win_on_third_placement() {
    let mut board = GameBoard::new(3);
    assert_eq!(board.place_player(Square::X, 0, 2), Ok(false));
    assert_eq!(board.place_player(Square::O, 0, 0), Ok(false));
    assert_eq!(board.place_player(Square::X, 1, 1), Ok(false));
    assert_eq!(board.place_player(Square::O, 0, 1), Ok(false));
    assert_eq!(board.place_player(Square::X, 2, 0), Ok(true));
}

#[test]
fn filled_diagonal_wins_a_later_move_off_the_diagonal() {
    let mut board = GameBoard::new(3);
    assert_eq!(board.place_player(Square::X, 0, 0), Ok(false));
    assert_eq!(board.place_player(Square::O, 0, 1), Ok(false));
    assert_eq!(board.place_player(Square::X, 1, 1), Ok(false));
    assert_eq!(board.place_player(Square::O, 0, 2), Ok(false));
    assert_eq!(board.place_player(Square::X, 2, 2), Ok(true));
    // The game is decided, but further placements are accepted; the
    // diagonal is always re-tested, so a move off the diagonal still
    // reports a win.
    assert_eq!(board.place_player(Square::O, 1, 0), Ok(false));
    assert_eq!(board.place_player(Square::X, 2, 1), Ok(true));
}

#[test]
fn fresh_board_is_reported_full() {
    for size in [1usize, 3, 5] {
        let board = GameBoard::new(size);
        assert!(board.is_full());
    }
}

#[test]
fn any_mark_makes_the_board_not_reported_full() {
    let mut board = GameBoard::new(3);
    assert_eq!(board.place_player(Square::O, 1, 2), Ok(false));
    assert!(!board.is_full());
}

#[test]
fn square_symbols() {
    assert_eq!(Square::EMPTY.symbol(), "_");
    assert_eq!(Square::X.symbol(), "X");
    assert_eq!(Square::O.symbol(), "O");
}

#[test]
fn rejection_messages() {
    assert_eq!(
        PlaceError::OffBoard.message(),
        "The given location is off of the board."
    );
    assert_eq!(
        PlaceError::AlreadyOccupied.message(),
        "There was already a player in the placed location."
    );
}
