use rusthello::{Board, Game, GameError, GridIterator, Player};

#[test]
fn game_over_not_for_a_new_game() {
    let game = Game::new();
    assert!(!game.game_over())
}

#[test]
fn game_over_if_all_cells_are_occupied() {
    let mut game = Game::new();
    let mut board = *game.board();
    let mut cells = GridIterator::new();
    while let Some((x, y)) = cells.next() {
        board.set_piece(x, y, Some(Player::Black)).unwrap();
        game = Game::from_position(board, Player::Black);
    }
    assert!(game.game_over());
}

#[test]
fn game_over_if_none_of_the_players_can_move() {
    let mut board = Board::new();
    board.set_piece(0, 0, Some(Player::Black)).unwrap();
    board.set_piece(7, 7, Some(Player::White)).unwrap();
    let game = Game::from_position(board, Player::Black);
    assert!(game.game_over());
}

#[test]
fn no_winner_for_a_new_game() {
    let game = Game::new();
    assert!(game.winner().is_none())
}

#[test]
fn no_winner_if_pieces_counts_are_equals() {
    let mut board_50_50 = Board::new();
    let mut cells = GridIterator::new();
    while let Some((x, y)) = cells.next() {
        let piece = if x % 2 == 0 {
            Some(Player::Black)
        } else {
            Some(Player::White)
        };
        board_50_50.set_piece(x, y, piece).unwrap();
    }
    let game = Game::from_position(board_50_50, Player::Black);
    assert!(game.winner().is_none())
}

#[test]
fn winner_if_no_one_can_move_and_one_has_more_pieces() {
    let mut unicolor_board = Board::new();
    let mut cells = GridIterator::new();
    while let Some((x, y)) = cells.next() {
        unicolor_board.set_piece(x, y, Some(Player::Black)).unwrap();
    }
    let game = Game::from_position(unicolor_board, Player::Black);
    assert_eq!(game.winner(), Some(Player::Black));
}

#[test]
fn count_pieces() {
    let game = Game::new();
    assert_eq!(game.count_pieces(), (2, 2));
}

#[test]
fn new_game_starts_with_black() {
    let game = Game::new();
    assert_eq!(game.player(), Some(Player::Black));
    assert!(!game.opponent_is_blocked());
    assert_eq!(game.board().get_piece(3, 3).unwrap(), Some(Player::White));
    assert_eq!(game.board().get_piece(4, 3).unwrap(), Some(Player::Black));
}

#[test]
fn accepted_move_passes_the_turn_and_adds_one_piece() {
    let mut game = Game::new();
    assert_eq!(game.play(Player::Black, 4, 5), Ok(()));
    assert_eq!(game.player(), Some(Player::White));
    assert!(!game.opponent_is_blocked());
    assert!(!game.game_over());
    assert_eq!(game.count_pieces(), (4, 1));
    assert_eq!(game.board().get_piece(4, 4).unwrap(), Some(Player::Black));
    assert_eq!(game.board().get_piece(4, 5).unwrap(), Some(Player::Black));
}

#[test]
fn refused_moves_leave_the_game_unchanged() {
    let mut game = Game::new();
    assert_eq!(
        game.play(Player::White, 4, 5),
        Err(GameError::WrongTurn {
            expected: Player::Black,
            requested: Player::White
        })
    );
    assert_eq!(
        game.play(Player::Black, 8, 5),
        Err(GameError::CoordinatesOutOfRange { x: 8, y: 5 })
    );
    assert_eq!(game.play(Player::Black, 3, 3), Err(GameError::IllegalMove));
    assert_eq!(game.play(Player::Black, 0, 0), Err(GameError::IllegalMove));
    assert_eq!(game.player(), Some(Player::Black));
    assert_eq!(game.count_pieces(), (2, 2));
    assert_eq!(game.board().to_text(), Board::new_start().to_text());
}

#[test]
fn finished_game_refuses_every_move() {
    let mut board = Board::new();
    board.set_piece(0, 0, Some(Player::Black)).unwrap();
    board.set_piece(7, 7, Some(Player::White)).unwrap();
    let mut game = Game::from_position(board, Player::Black);
    assert_eq!(game.player(), None);
    assert_eq!(game.play(Player::Black, 1, 1), Err(GameError::GameOver));
    assert_eq!(game.play(Player::White, 9, 9), Err(GameError::GameOver));
    assert_eq!(game.winner(), None);
}

#[test]
fn blocked_opponent_is_skipped() {
    // Row 0 holds "X O . . . . . ." : Black at (0,0), White at (1,0).
    // Black plays (2,0) and takes (1,0); White has no piece left and cannot
    // move, and neither can Black: the game is over.
    let mut board = Board::new();
    board.set_piece(0, 0, Some(Player::Black)).unwrap();
    board.set_piece(1, 0, Some(Player::White)).unwrap();
    let mut game = Game::from_position(board, Player::Black);
    assert_eq!(game.player(), Some(Player::Black));
    assert_eq!(game.play(Player::Black, 2, 0), Ok(()));
    assert!(game.game_over());
    assert_eq!(game.player(), None);
    assert_eq!(game.winner(), Some(Player::Black));
    assert_eq!(game.count_pieces(), (3, 0));

    // The same twice, in row 0 and in row 7: after Black has taken (1,0)
    // White cannot move, but Black can still take (1,7) from (2,7).
    let mut board = Board::new();
    board.set_piece(0, 0, Some(Player::Black)).unwrap();
    board.set_piece(1, 0, Some(Player::White)).unwrap();
    board.set_piece(0, 7, Some(Player::Black)).unwrap();
    board.set_piece(1, 7, Some(Player::White)).unwrap();
    let mut game = Game::from_position(board, Player::Black);
    assert_eq!(game.play(Player::Black, 2, 0), Ok(()));
    assert!(!game.board().can_player_move(Player::White));
    assert!(game.board().can_player_move(Player::Black));
    assert_eq!(game.player(), Some(Player::Black));
    assert!(game.opponent_is_blocked());
    assert!(!game.game_over());
}

#[test]
fn resumed_game_passes_the_turn_of_a_blocked_player() {
    let mut board = Board::new();
    board.set_piece(0, 0, Some(Player::Black)).unwrap();
    board.set_piece(1, 0, Some(Player::White)).unwrap();
    // White is due but only Black can move.
    let game = Game::from_position(board, Player::White);
    assert_eq!(game.player(), Some(Player::Black));
    assert!(game.opponent_is_blocked());
    let game = Game::from_position(board, Player::Black);
    assert_eq!(game.player(), Some(Player::Black));
    assert!(!game.opponent_is_blocked());
}
