use tictactoe::Cell;
use tictactoe::GameState;
use tictactoe::MoveError;
use tictactoe::Outcome;
use tictactoe::Player;
use tictactoe::Status;

/// Every cell of the session's board is `Empty`.
fn board_is_empty(game: &GameState) -> bool {
    let n = game.board_size();
    for row in 0..n {
        for col in 0..n {
            if game.cell_at(row, col) != Cell::Empty {
                return false;
            }
        }
    }
    true
}

#[test]
fn test_new_session_initial_state() {
    let game = GameState::new(3);
    assert_eq!(game.board_size(), 3);
    assert_eq!(game.status(), Status::InProgress(Player::Player1));
    assert_eq!(game.current_player(), Player::Player1);
    assert_eq!(game.outcome(), None);
    assert!(!game.is_over());
    assert!(board_is_empty(&game));
}

#[test]
fn test_move_records_current_player() {
    // The player to move before each accepted move is the player recorded
    // in the cell just filled.
    let mut game = GameState::new(4);
    let moves = [(0usize, 0usize), (1, 1), (0, 1), (1, 0), (2, 2), (3, 3), (0, 3)];
    for &(row, col) in moves.iter() {
        assert!(!game.is_over());
        let mover = game.current_player();
        assert_eq!(game.apply_move(row, col), Ok(()));
        assert_eq!(game.cell_at(row, col), Cell::Occupied(mover));
    }
}

#[test]
fn test_turn_toggles_while_in_progress() {
    let mut game = GameState::new(3);
    assert_eq!(game.current_player(), Player::Player1);
    game.apply_move(0, 0).unwrap();
    assert_eq!(game.current_player(), Player::Player2);
    game.apply_move(1, 1).unwrap();
    assert_eq!(game.current_player(), Player::Player1);
    game.apply_move(2, 2).unwrap();
    assert_eq!(game.current_player(), Player::Player2);
}

#[test]
fn test_top_row_win_scenario() {
    // (0,0) P1, (1,1) P2, (0,1) P1, (1,0) P2, (0,2) P1: top row complete.
    let mut game = GameState::new(3);
    assert_eq!(game.apply_move(0, 0), Ok(()));
    assert_eq!(game.apply_move(1, 1), Ok(()));
    assert_eq!(game.apply_move(0, 1), Ok(()));
    assert_eq!(game.apply_move(1, 0), Ok(()));
    assert_eq!(game.apply_move(0, 2), Ok(()));
    assert_eq!(game.status(), Status::Finished(Outcome::Win(Player::Player1)));
    assert_eq!(game.outcome(), Some(Outcome::Win(Player::Player1)));
    assert!(game.is_over());
}

#[test]
fn test_column_win_scenario_4x4() {
    // Player1 fills column 0 while Player2 answers in column 1.
    let mut game = GameState::new(4);
    assert_eq!(game.apply_move(0, 0), Ok(()));
    assert_eq!(game.apply_move(0, 1), Ok(()));
    assert_eq!(game.apply_move(1, 0), Ok(()));
    assert_eq!(game.apply_move(1, 1), Ok(()));
    assert_eq!(game.apply_move(2, 0), Ok(()));
    assert_eq!(game.apply_move(2, 1), Ok(()));
    assert_eq!(game.apply_move(3, 0), Ok(()));
    assert_eq!(game.status(), Status::Finished(Outcome::Win(Player::Player1)));
}

#[test]
fn test_full_board_draw_scenario() {
    // A legal alternating fill of the 3x3 board with no complete line.
    let mut game = GameState::new(3);
    let moves = [
        (0usize, 0usize), // Player1
        (0, 1),           // Player2
        (0, 2),           // Player1
        (1, 1),           // Player2
        (1, 0),           // Player1
        (1, 2),           // Player2
        (2, 1),           // Player1
        (2, 0),           // Player2
        (2, 2),           // Player1
    ];
    for &(row, col) in moves.iter() {
        assert_eq!(game.apply_move(row, col), Ok(()));
    }
    assert_eq!(game.status(), Status::Finished(Outcome::Draw));
    assert_eq!(game.outcome(), Some(Outcome::Draw));
}

#[test]
fn test_out_of_bounds_boundary() {
    // apply_move(N, 0) and apply_move(0, N) both fail with OutOfBounds for
    // any N, and leave the state unchanged.
    for n in [3usize, 4, 5] {
        let mut game = GameState::new(n);
        assert_eq!(game.apply_move(n, 0), Err(MoveError::OutOfBounds));
        assert_eq!(game.apply_move(0, n), Err(MoveError::OutOfBounds));
        assert_eq!(game.apply_move(n, n), Err(MoveError::OutOfBounds));
        assert_eq!(game.status(), Status::InProgress(Player::Player1));
        assert!(board_is_empty(&game));
    }
}

#[test]
fn test_occupied_rejection_is_idempotent() {
    // Re-trying an occupied cell never changes the board nor the turn,
    // however often it is repeated.
    let mut game = GameState::new(3);
    game.apply_move(1, 1).unwrap();
    assert_eq!(game.current_player(), Player::Player2);
    for _ in 0..3 {
        assert_eq!(game.apply_move(1, 1), Err(MoveError::CellOccupied));
        assert_eq!(game.cell_at(1, 1), Cell::Occupied(Player::Player1));
        assert_eq!(game.status(), Status::InProgress(Player::Player2));
    }
}

#[test]
fn test_terminal_lock() {
    // Once finished, repeated apply_move calls always fail with GameOver
    // and never mutate the board.
    let mut game = GameState::new(3);
    game.apply_move(0, 0).unwrap();
    game.apply_move(1, 1).unwrap();
    game.apply_move(0, 1).unwrap();
    game.apply_move(1, 0).unwrap();
    game.apply_move(0, 2).unwrap();
    assert!(game.is_over());
    for _ in 0..3 {
        assert_eq!(game.apply_move(2, 2), Err(MoveError::GameOver));
        assert_eq!(game.apply_move(0, 0), Err(MoveError::GameOver));
        assert_eq!(game.apply_move(9, 9), Err(MoveError::GameOver));
    }
    assert_eq!(game.status(), Status::Finished(Outcome::Win(Player::Player1)));
    assert_eq!(game.cell_at(0, 0), Cell::Occupied(Player::Player1));
    assert_eq!(game.cell_at(1, 1), Cell::Occupied(Player::Player2));
    assert_eq!(game.cell_at(2, 2), Cell::Empty);
}

#[test]
fn test_reset_restores_initial_state() {
    // reset() always restores InProgress(Player1) and an all-Empty board,
    // regardless of prior state.
    let mut game = GameState::new(3);

    // Immediately after creation.
    game.reset();
    assert_eq!(game.status(), Status::InProgress(Player::Player1));
    assert!(board_is_empty(&game));
    assert_eq!(game.board_size(), 3);

    // In the middle of a session.
    game.apply_move(0, 0).unwrap();
    game.apply_move(1, 1).unwrap();
    game.reset();
    assert_eq!(game.status(), Status::InProgress(Player::Player1));
    assert!(board_is_empty(&game));

    // Immediately after a win.
    game.apply_move(0, 0).unwrap();
    game.apply_move(1, 1).unwrap();
    game.apply_move(0, 1).unwrap();
    game.apply_move(1, 0).unwrap();
    game.apply_move(0, 2).unwrap();
    assert!(game.is_over());
    game.reset();
    assert_eq!(game.status(), Status::InProgress(Player::Player1));
    assert_eq!(game.outcome(), None);
    assert!(board_is_empty(&game));

    // Immediately after a draw.
    for &(row, col) in
        [(0, 0), (0, 1), (0, 2), (1, 1), (1, 0), (1, 2), (2, 1), (2, 0), (2, 2)].iter()
    {
        game.apply_move(row, col).unwrap();
    }
    assert_eq!(game.outcome(), Some(Outcome::Draw));
    game.reset();
    assert_eq!(game.status(), Status::InProgress(Player::Player1));
    assert_eq!(game.outcome(), None);
    assert!(board_is_empty(&game));
    assert_eq!(game.board_size(), 3);
}
