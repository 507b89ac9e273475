use tictac_hub::tictac::Cell::{O, X};
use tictac_hub::tictac::{Cell, TicTacToeGame, MAX_SIZE};

fn empty_field(size: usize) -> Vec<Vec<Option<Cell>>> {
    vec![vec![None; size]; size]
}

#[test]
fn flip_swaps_the_marks() {
    assert_eq!(X.flip(), O);
    assert_eq!(O.flip(), X);
    assert_eq!(X.flip().flip(), X);
}

#[test]
fn valid_configurations() {
    assert_eq!(MAX_SIZE, 100);
    assert!(TicTacToeGame::is_valid_config(1, 1));
    assert!(TicTacToeGame::is_valid_config(3, 3));
    assert!(TicTacToeGame::is_valid_config(100, 5));
    assert!(TicTacToeGame::is_valid_config(4, 0));
    assert!(!TicTacToeGame::is_valid_config(0, 0));
    assert!(!TicTacToeGame::is_valid_config(101, 3));
    assert!(!TicTacToeGame::is_valid_config(3, 4));
}

#[test]
fn fresh_board_is_empty_with_x_to_move() {
    for (size, criteria) in [(1, 1), (3, 2), (3, 3), (10, 5), (100, 100), (100, 1)] {
        let game = TicTacToeGame::new(size, criteria);
        assert_eq!(game.field, empty_field(size));
        assert_eq!(game.current_player, Some(X));
        assert_eq!(game.winner, None);
        assert_eq!(game.size, size);
        assert_eq!(game.criteria, criteria);
        assert!(!game.draw);
    }
}

#[test]
fn clone_copies_every_field() {
    let mut game = TicTacToeGame::new(4, 3);
    game.turn(1, 2);
    game.turn(0, 0);
    let copy = game.clone();
    assert_eq!(copy, game);
    assert_eq!(copy.field[1][2], Some(X));
    assert_eq!(copy.field[0][0], Some(O));
    assert_eq!(copy.current_player, Some(X));
}

#[test]
fn move_writes_the_mark_and_hands_over_the_turn() {
    let mut game = TicTacToeGame::new(3, 3);
    assert_eq!(game.turn(1, 1), None);
    assert_eq!(game.field[1][1], Some(X));
    assert_eq!(game.current_player, Some(O));
    assert_eq!(game.turn(0, 2), None);
    assert_eq!(game.field[0][2], Some(O));
    assert_eq!(game.current_player, Some(X));
    let mut expected = empty_field(3);
    expected[1][1] = Some(X);
    expected[0][2] = Some(O);
    assert_eq!(game.field, expected);
    assert_eq!(game.winner, None);
    assert!(!game.draw);
}

#[test]
fn move_to_taken_cell_changes_nothing() {
    let mut game = TicTacToeGame::new(3, 3);
    game.turn(1, 1);
    let before = game.clone();
    assert_eq!(game.turn(1, 1), None);
    assert_eq!(game, before);
    assert_eq!(game.current_player, Some(O));
}

#[test]
fn move_off_the_board_changes_nothing() {
    let mut game = TicTacToeGame::new(3, 2);
    game.turn(0, 0);
    let before = game.clone();
    for (x, y) in [(3, 0), (0, 3), (3, 3), (usize::MAX, 1), (1, usize::MAX)] {
        assert_eq!(game.turn(x, y), None);
        assert_eq!(game, before);
    }
}

#[test]
fn move_after_a_win_changes_nothing() {
    let mut game = TicTacToeGame::new(3, 2);
    game.turn(0, 0);
    game.turn(2, 2);
    assert_eq!(game.turn(0, 1), Some(X));
    let before = game.clone();
    assert_eq!(game.turn(1, 1), None);
    assert_eq!(game, before);
    assert_eq!(game.winner, Some(X));
}

#[test]
fn move_after_a_draw_changes_nothing() {
    let mut game = TicTacToeGame::new(1, 0);
    assert_eq!(game.turn(0, 0), None);
    assert!(game.draw);
    let before = game.clone();
    assert_eq!(game.turn(0, 0), None);
    assert_eq!(game, before);
}

#[test]
fn two_in_a_row_wins_on_the_second_mark() {
    let mut game = TicTacToeGame::new(3, 2);
    assert_eq!(game.turn(0, 0), None);
    assert_eq!(game.winner, None);
    assert_eq!(game.turn(2, 2), None);
    assert_eq!(game.turn(0, 1), Some(X));
    assert_eq!(game.winner, Some(X));
    assert_eq!(game.current_player, None);
    assert!(!game.draw);
}

#[test]
fn second_player_can_win() {
    let mut game = TicTacToeGame::new(4, 3);
    let moves = [(0, 0), (1, 0), (0, 1), (1, 1), (3, 3)];
    for (x, y) in moves {
        assert_eq!(game.turn(x, y), None);
    }
    assert_eq!(game.turn(1, 2), Some(O));
    assert_eq!(game.winner, Some(O));
    assert_eq!(game.current_player, None);
}

fn wins_with(size: usize, criteria: usize, cells: &[(usize, usize)]) {
    let mut game = TicTacToeGame::new(size, criteria);
    let (last, rest) = cells.split_last().unwrap();
    for (r, c) in rest {
        game.field[*r][*c] = Some(X);
    }
    assert_eq!(game.check_field_for_winner(), None, "{:?}", cells);
    assert_eq!(game.turn(last.0, last.1), Some(X), "{:?}", cells);
    assert_eq!(game.winner, Some(X));
    assert_eq!(game.current_player, None);
}

#[test]
fn run_wins_along_every_row() {
    for r in 0..5 {
        for c in 0..3 {
            wins_with(5, 3, &[(r, c), (r, c + 1), (r, c + 2)]);
            wins_with(5, 3, &[(r, c + 2), (r, c), (r, c + 1)]);
        }
    }
}

#[test]
fn run_wins_along_every_column() {
    for r in 0..3 {
        for c in 0..5 {
            wins_with(5, 3, &[(r, c), (r + 1, c), (r + 2, c)]);
        }
    }
}

#[test]
fn run_wins_along_every_diagonal() {
    for r in 0..3 {
        for c in 0..3 {
            wins_with(5, 3, &[(r, c), (r + 1, c + 1), (r + 2, c + 2)]);
        }
    }
}

#[test]
fn run_wins_along_every_anti_diagonal() {
    for r in 0..3 {
        for c in 2..5 {
            wins_with(5, 3, &[(r, c), (r + 1, c - 1), (r + 2, c - 2)]);
        }
    }
}

#[test]
fn run_as_long_as_the_side_needs_a_full_line() {
    let mut game = TicTacToeGame::new(3, 3);
    game.field[0][0] = Some(X);
    game.field[0][1] = Some(X);
    assert_eq!(game.check_field_for_winner(), None);
    game.field[0][2] = Some(X);
    assert_eq!(game.check_field_for_winner(), Some(X));
    let mut game = TicTacToeGame::new(3, 3);
    game.field[0][2] = Some(O);
    game.field[1][1] = Some(O);
    game.field[2][0] = Some(O);
    assert_eq!(game.check_span_for_winner(0, 0), Some(O));
    assert_eq!(game.check_field_for_winner(), Some(O));
}

#[test]
fn mixed_line_is_no_run() {
    let mut game = TicTacToeGame::new(3, 3);
    game.field[1][0] = Some(X);
    game.field[1][1] = Some(O);
    game.field[1][2] = Some(X);
    assert_eq!(game.check_span_for_winner(0, 0), None);
    assert_eq!(game.check_field_for_winner(), None);
}

#[test]
fn window_is_scanned_rows_first() {
    let mut game = TicTacToeGame::new(3, 2);
    game.field[0][0] = Some(O);
    game.field[1][0] = Some(O);
    game.field[1][1] = Some(X);
    game.field[0][1] = Some(X);
    // column 0 holds O, column 1 holds X: the columns are tried from the left
    assert_eq!(game.check_span_for_winner(0, 0), Some(O));
    game.field[1][0] = Some(X);
    // now row 1 holds X, and rows are tried before columns
    assert_eq!(game.check_span_for_winner(0, 0), Some(X));
}

#[test]
fn board_is_scanned_window_by_window() {
    let mut game = TicTacToeGame::new(3, 2);
    game.field[0][1] = Some(O);
    game.field[0][2] = Some(O);
    game.field[1][0] = Some(X);
    game.field[1][1] = Some(X);
    assert_eq!(game.check_span_for_winner(0, 0), Some(X));
    assert_eq!(game.check_span_for_winner(0, 1), Some(O));
    assert_eq!(game.check_field_for_winner(), Some(X));
}

#[test]
fn any_run_makes_the_mover_the_winner() {
    let mut game = TicTacToeGame::new(3, 2);
    game.field[2][1] = Some(O);
    game.field[2][2] = Some(O);
    assert_eq!(game.turn(0, 0), Some(X));
    assert_eq!(game.winner, Some(X));
}

#[test]
fn runs_of_length_zero_never_win() {
    let mut game = TicTacToeGame::new(2, 0);
    assert_eq!(game.check_field_for_winner(), None);
    assert_eq!(game.check_span_for_winner(2, 2), None);
    assert_eq!(game.turn(0, 0), None);
    assert_eq!(game.turn(0, 1), None);
    assert_eq!(game.turn(1, 0), None);
    assert!(!game.draw);
    assert_eq!(game.turn(1, 1), None);
    assert!(game.draw);
    assert_eq!(game.winner, None);
}

#[test]
fn full_board_without_run_is_a_draw() {
    let mut game = TicTacToeGame::new(3, 3);
    let moves = [(0, 0), (0, 1), (0, 2), (1, 1), (1, 0), (1, 2), (2, 1), (2, 0)];
    for (x, y) in moves {
        assert_eq!(game.turn(x, y), None);
        assert!(!game.draw);
        assert_eq!(game.winner, None);
    }
    assert_eq!(game.turn(2, 2), None);
    assert!(game.draw);
    assert_eq!(game.winner, None);
    assert_eq!(game.current_player, Some(O));
    assert!(game.field.iter().all(|row| row.iter().all(|cell| cell.is_some())));
}

#[test]
fn winning_with_the_last_cell_is_no_draw() {
    let mut game = TicTacToeGame::new(1, 1);
    assert_eq!(game.turn(0, 0), Some(X));
    assert_eq!(game.winner, Some(X));
    assert!(!game.draw);
    assert_eq!(game.current_player, None);
}

#[test]
fn turn_flips_once_per_accepted_move() {
    let mut game = TicTacToeGame::new(4, 4);
    let mut expected = X;
    for (x, y) in [(0, 0), (1, 1), (2, 2), (3, 3), (0, 1)] {
        assert_eq!(game.current_player, Some(expected));
        game.turn(x, y);
        expected = expected.flip();
        assert_eq!(game.current_player, Some(expected));
        game.turn(x, y);
        assert_eq!(game.current_player, Some(expected));
        game.turn(4, 0);
        assert_eq!(game.current_player, Some(expected));
    }
}

#[test]
fn marks_are_never_overwritten() {
    let mut game = TicTacToeGame::new(3, 3);
    game.turn(0, 0);
    game.turn(0, 0);
    assert_eq!(game.field[0][0], Some(X));
    game.turn(1, 1);
    game.turn(0, 0);
    assert_eq!(game.field[0][0], Some(X));
    assert_eq!(game.field[1][1], Some(O));
}

#[test]
fn board_without_mover_takes_no_move() {
    let mut game = TicTacToeGame::new(3, 3);
    game.current_player = None;
    let before = game.clone();
    assert_eq!(game.turn(0, 0), None);
    assert_eq!(game, before);
}
