use rusthello::{AlphaBeta, Board, Evaluator, Game, Minimax, Player, VirtualPlayer};

#[test]
fn evaluate_returns_zero_for_equals_forces() {
    let board = Board::new_start();
    assert_eq!(0, Evaluator::evaluate(&board, Player::Black));
}

#[test]
fn evaluate_returns_positive_score_if_black_is_stronger() {
    let board = Board::new_start();
    let board = board.play(Player::Black, 4, 5).unwrap().unwrap();
    assert!(Evaluator::evaluate(&board, Player::Black) > 0);
}

#[test]
fn evaluate_returns_negative_score_if_white_is_stronger() {
    let mut board = Board::new_start();
    board.set_piece(3, 4, Some(Player::White)).unwrap();
    assert!(Evaluator::evaluate(&board, Player::Black) < 0);
}

#[test]
fn minimax_find_a_move() {
    let board = Board::new_start();
    let mut minimax = Minimax::new(4);
    let best_move = minimax.compute_move(&board, Player::Black);
    assert!(best_move.is_some());
}

#[test]
fn minimax_find_the_best_move() {
    let mut board = Board::new();
    board.set_piece(2, 2, Some(Player::White)).unwrap();
    board.set_piece(3, 2, Some(Player::Black)).unwrap();
    board.set_piece(2, 3, Some(Player::White)).unwrap();
    board.set_piece(3, 3, Some(Player::Black)).unwrap();
    board.set_piece(4, 3, Some(Player::Black)).unwrap();
    let mut minimax = Minimax::new(1);
    let best_move = minimax.compute_move(&board, Player::White);
    assert_eq!(best_move, Some((5, 3)));
}

#[test]
fn alphabeta_find_a_move() {
    let board = Board::new_start();
    let mut alphabeta = AlphaBeta::new(4);
    let best_move = alphabeta.compute_move(&board, Player::Black);
    assert!(best_move.is_some());
}

#[test]
fn alphabeta_find_the_best_move() {
    let mut board = Board::new();
    board.set_piece(2, 2, Some(Player::White)).unwrap();
    board.set_piece(3, 2, Some(Player::Black)).unwrap();
    board.set_piece(2, 3, Some(Player::White)).unwrap();
    board.set_piece(3, 3, Some(Player::Black)).unwrap();
    board.set_piece(4, 3, Some(Player::Black)).unwrap();
    let mut alphabeta = AlphaBeta::new(1);
    let best_move = alphabeta.compute_move(&board, Player::White);
    assert_eq!(best_move, Some((5, 3)));
}

/// Plays a whole game and compares, turn by turn, the move of both
/// algorithms and the counts of the moves they explored.
#[test]
fn alpha_beta_behave_the_same_as_minimax() {
    let mut game = Game::new();
    let mut minimax = Minimax::new(4);
    let mut alpha_beta = AlphaBeta::new(4);
    while !game.game_over() {
        // compare computed moves for this turn.
        let minimax_result = minimax.compute_move(game.board(), game.player().unwrap());
        let alphabeta_result = alpha_beta.compute_move(game.board(), game.player().unwrap());
        assert_eq!(minimax_result, alphabeta_result);
        // play the move... and continue the game
        println!(
            "Move : {:?} / move counts : minimax {} - {} alphabeta",
            alphabeta_result,
            minimax.move_count(),
            alpha_beta.move_count()
        );
        match alphabeta_result {
            Some((x, y)) => game.play(game.player().unwrap(), x, y),
            None => panic!("Unexpected empty move."),
        }
        .unwrap();
    }
}
