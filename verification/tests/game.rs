use tic_tac_toe::game::{Color, FieldType, Game};

/// Places `mark` at `(row, col)`: hands the turn over first if the active
/// player would place the other mark, then captures.
fn place(game: &mut Game, row: usize, col: usize, mark: FieldType) {
    let wants_starter = mark == FieldType::CROSS;
    let starter_active = *game.get_current_player() == Color::BLUE;
    if wants_starter != starter_active {
        game.change_current_player();
    }
    game.capture_cell(row, col);
}

#[test]
fn fresh_game_is_empty_and_unfinished() {
    for size in [1, 2, 3, 5] {
        let game = Game::new(size);
        assert_eq!(game.get_board_size(), size);
        assert_eq!(*game.get_current_player(), Color::BLUE);
        for row in 0..size {
            for col in 0..size {
                assert!(!game.is_cell_occupied(row, col));
                assert_eq!(game.get_game_board()[row][col], FieldType::UNOWNED);
            }
        }
        assert!(!game.is_game_finished());
    }
}

#[test]
fn turn_alternation_matches_parity() {
    let mut game = Game::new(3);
    for k in 0..10 {
        let player = *game.get_current_player();
        if k % 2 == 0 {
            assert_eq!(player, Color::BLUE);
        } else {
            assert_eq!(player, Color::RED);
        }
        game.change_current_player();
    }
}

#[test]
fn captured_cell_stays_occupied() {
    let mut game = Game::new(3);
    game.capture_cell(1, 1);
    assert!(game.is_cell_occupied(1, 1));
    game.change_current_player();
    game.capture_cell(0, 0);
    game.change_current_player();
    game.capture_cell(2, 2);
    game.change_current_player();
    assert!(game.is_cell_occupied(1, 1));
    assert!(game.is_cell_occupied(0, 0));
    assert_ne!(game.get_game_board()[1][1], FieldType::UNOWNED);
}

#[test]
fn capture_places_active_players_mark() {
    let mut game = Game::new(3);
    game.capture_cell(0, 0);
    assert_eq!(game.get_game_board()[0][0], FieldType::CROSS);
    game.change_current_player();
    game.capture_cell(1, 2);
    assert_eq!(game.get_game_board()[1][2], FieldType::CIRCLE);
}

#[test]
fn full_row_finishes_the_game() {
    let mut game = Game::new(3);
    place(&mut game, 0, 0, FieldType::CROSS);
    place(&mut game, 0, 1, FieldType::CROSS);
    assert!(!game.is_game_finished());
    place(&mut game, 0, 2, FieldType::CROSS);
    assert!(game.is_game_finished());
}

#[test]
fn two_of_three_in_a_row_is_not_finished() {
    let mut game = Game::new(3);
    place(&mut game, 2, 0, FieldType::CIRCLE);
    place(&mut game, 2, 2, FieldType::CIRCLE);
    assert!(!game.is_game_finished());
}

#[test]
fn full_column_finishes_the_game() {
    let mut game = Game::new(3);
    place(&mut game, 0, 1, FieldType::CIRCLE);
    place(&mut game, 1, 1, FieldType::CIRCLE);
    assert!(!game.is_game_finished());
    place(&mut game, 2, 1, FieldType::CIRCLE);
    assert!(game.is_game_finished());
}

#[test]
fn main_diagonal_finishes_the_game() {
    let mut game = Game::new(3);
    place(&mut game, 0, 0, FieldType::CROSS);
    place(&mut game, 1, 1, FieldType::CROSS);
    assert!(!game.is_game_finished());
    place(&mut game, 2, 2, FieldType::CROSS);
    assert!(game.is_game_finished());
}

#[test]
fn anti_diagonal_finishes_the_game() {
    let mut game = Game::new(3);
    place(&mut game, 0, 2, FieldType::CIRCLE);
    place(&mut game, 1, 1, FieldType::CIRCLE);
    assert!(!game.is_game_finished());
    place(&mut game, 2, 0, FieldType::CIRCLE);
    assert!(game.is_game_finished());
}

#[test]
fn mixed_lines_are_no_win() {
    // Row 0: X 0 X, row 1: 0 empty empty, row 2: X empty 0 — no line is
    // uniformly owned, neither diagonal either.
    let mut game = Game::new(3);
    place(&mut game, 0, 0, FieldType::CROSS);
    place(&mut game, 0, 1, FieldType::CIRCLE);
    place(&mut game, 0, 2, FieldType::CROSS);
    place(&mut game, 1, 0, FieldType::CIRCLE);
    place(&mut game, 2, 0, FieldType::CROSS);
    place(&mut game, 2, 2, FieldType::CIRCLE);
    assert!(!game.is_game_finished());
}

#[test]
fn full_board_draw_reports_unfinished() {
    // A drawn 3-by-3 position: no row, column or diagonal is uniform.
    //   X 0 X
    //   X 0 0
    //   0 X X
    // The game reports unfinished: a draw has no signal of its own.
    let layout = [
        [FieldType::CROSS, FieldType::CIRCLE, FieldType::CROSS],
        [FieldType::CROSS, FieldType::CIRCLE, FieldType::CIRCLE],
        [FieldType::CIRCLE, FieldType::CROSS, FieldType::CROSS],
    ];
    let mut game = Game::new(3);
    for row in 0..3 {
        for col in 0..3 {
            place(&mut game, row, col, layout[row][col]);
            assert!(game.is_cell_occupied(row, col));
        }
    }
    assert!(!game.is_game_finished());
}

#[test]
fn starter_row_win_scenario() {
    // The starter takes row 0 across three turns while the opponent takes
    // (1,0) and (1,1); each capture is followed by the usual hand-over,
    // except the last: the front end observes the finished game before any
    // post-move toggle, so the starter is still active.
    let mut game = Game::new(3);
    game.capture_cell(0, 0);
    game.change_current_player();
    game.capture_cell(1, 0);
    game.change_current_player();
    game.capture_cell(0, 1);
    game.change_current_player();
    game.capture_cell(1, 1);
    game.change_current_player();
    assert!(!game.is_game_finished());
    game.capture_cell(0, 2);
    assert!(game.is_game_finished());
    assert_eq!(*game.get_current_player(), Color::BLUE);
}

#[test]
fn one_by_one_board_wins_on_first_capture() {
    let mut game = Game::new(1);
    assert!(!game.is_game_finished());
    game.capture_cell(0, 0);
    assert!(game.is_game_finished());
}

#[test]
fn five_by_five_column_win() {
    let mut game = Game::new(5);
    for row in 0..5 {
        place(&mut game, row, 3, FieldType::CROSS);
    }
    assert!(game.is_game_finished());
}

#[test]
fn five_by_five_partial_lines_unfinished() {
    let mut game = Game::new(5);
    // Three in a row is not a win on a five-wide board: only a full line
    // counts.
    place(&mut game, 2, 0, FieldType::CROSS);
    place(&mut game, 2, 1, FieldType::CROSS);
    place(&mut game, 2, 2, FieldType::CROSS);
    assert!(!game.is_game_finished());
}
