use tictac_hub::tictac::Cell::X;
use tictac_hub::tictac::TicTacToeGame;

#[test]
fn detects_horizontal() {
    let mut x = TicTacToeGame::new(3, 2);
    x.field = vec![
        vec![None, None, None],
        vec![None, None, None],
        vec![None, None, None],
    ];
    assert_eq!(None, x.check_span_for_winner(0, 0));
    assert_eq!(None, x.check_field_for_winner());
    for i in 0..3 {
        for j in 0..2 {
            x.field = vec![
                vec![None, None, None],
                vec![None, None, None],
                vec![None, None, None],
            ];
            x.field[i][j] = Some(X);
            x.field[i][j + 1] = Some(X);
            assert_eq!(
                Some(X),
                x.check_field_for_winner(),
                "check_field_for_winner (i={i}, j={j}, field={:?})",
                x.field
            );
        }
    }
}

#[test]
fn detects_vertical() {
    let mut x = TicTacToeGame::new(3, 2);
    x.field = vec![
        vec![None, None, None],
        vec![None, None, None],
        vec![None, None, None],
    ];
    assert_eq!(None, x.check_span_for_winner(0, 0));
    assert_eq!(None, x.check_field_for_winner());
    for i in 0..2 {
        for j in 0..3 {
            x.field = vec![
                vec![None, None, None],
                vec![None, None, None],
                vec![None, None, None],
            ];
            x.field[i][j] = Some(X);
            x.field[i + 1][j] = Some(X);
            assert_eq!(
                Some(X),
                x.check_field_for_winner(),
                "check_field_for_winner (i={i}, j={j}, field={:?})",
                x.field
            );
        }
    }
}

#[test]
fn detects_diagonal() {
    let mut x = TicTacToeGame::new(3, 2);
    x.field = vec![
        vec![None, None, None],
        vec![None, None, None],
        vec![None, None, None],
    ];
    assert_eq!(None, x.check_span_for_winner(0, 0));
    assert_eq!(None, x.check_field_for_winner());
    for i in 0..2 {
        for j in 0..2 {
            x.field = vec![
                vec![None, None, None],
                vec![None, None, None],
                vec![None, None, None],
            ];
            x.field[i][j] = Some(X);
            x.field[i + 1][j + 1] = Some(X);
            assert_eq!(
                Some(X),
                x.check_field_for_winner(),
                "check_field_for_winner (i={i}, j={j}, field={:?})",
                x.field
            );

            x.field = vec![
                vec![None, None, None],
                vec![None, None, None],
                vec![None, None, None],
            ];
            x.field[i + 1][j] = Some(X);
            x.field[i][j + 1] = Some(X);
            assert_eq!(
                Some(X),
                x.check_field_for_winner(),
                "check_field_for_winner (i={i}, j={j}, field={:?})",
                x.field
            );
        }
    }
}
