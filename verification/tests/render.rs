use tictactoe::gameboard::{GameBoard, Square};

#[test]
fn empty_three_by_three_board_renders_three_rows_of_empty_markers() {
    let board = GameBoard::new(3);
    assert_eq!(
        board.render(),
        "Row 0: | _  _  _ |\nRow 1: | _  _  _ |\nRow 2: | _  _  _ |\n"
    );
}

#[test]
fn single_cell_board_renders_one_row() {
    let board = GameBoard::new(1);
    assert_eq!(board.render(), "Row 0: | _ |\n");
}

#[test]
fn placed_marks_show_in_their_cells() {
    let mut board = GameBoard::new(3);
    assert_eq!(board.place_player(Square::X, 0, 0), Ok(false));
    assert_eq!(board.place_player(Square::O, 1, 2), Ok(false));
    assert_eq!(
        board.render(),
        "Row 0: | X  _  _ |\nRow 1: | _  _  O |\nRow 2: | _  _  _ |\n"
    );
}

#[test]
fn row_labels_past_nine_use_two_decimal_digits() {
    let size: usize = 11;
    let board = GameBoard::new(size);
    let mut expected = String::new();
    for row in 0usize..size {
        expected.push_str(&format!("Row {}: |", row));
        for _column in 0usize..size {
            expected.push_str(" _ ");
        }
        expected.push_str("|\n");
    }
    assert_eq!(board.render(), expected);
}
