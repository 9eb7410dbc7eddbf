use rusthello::{
    AlphaBeta, Board, CellsNavigator, Evaluator, Game, GameStatus, Minimax, Player, VirtualPlayer,
};

fn positions_of_a_game() -> Vec<(Board, Player)> {
    let mut positions = vec![];
    let mut game = Game::new();
    let mut engine = Minimax::new(1);
    while let Some(player) = game.player() {
        positions.push((*game.board(), player));
        let (x, y) = engine.compute_move(game.board(), player).unwrap();
        game.play(player, x, y).unwrap();
    }
    positions.push((*game.board(), Player::Black));
    positions
}

#[test]
fn opponent_is_an_involution() {
    assert_eq!(Player::Black.opponent(), Player::White);
    assert_eq!(Player::White.opponent(), Player::Black);
    assert_eq!(Player::Black.opponent().opponent(), Player::Black);
    assert_eq!(Player::White.opponent().opponent(), Player::White);
}

#[test]
fn black_has_four_first_moves() {
    let board = Board::new_start();
    let mut legal = vec![];
    for y in 0..8u8 {
        for x in 0..8u8 {
            if board.is_move_valid(Player::Black, x, y).unwrap() {
                legal.push((x, y));
            }
        }
    }
    legal.sort();
    assert_eq!(legal, vec![(2, 3), (3, 2), (4, 5), (5, 4)]);
}

#[test]
fn first_move_recolors_one_piece() {
    let board = Board::new_start();
    let after = board.play(Player::Black, 4, 5).unwrap().unwrap();
    assert_eq!(after.get_piece(4, 4).unwrap(), Some(Player::Black));
    assert_eq!(after.get_piece(4, 5).unwrap(), Some(Player::Black));
    assert_eq!(after.get_piece(3, 3).unwrap(), Some(Player::White));
    assert_eq!(after.get_piece(3, 4).unwrap(), Some(Player::Black));
    assert_eq!(after.get_piece(4, 3).unwrap(), Some(Player::Black));
    assert_eq!(after.count_pieces(), (4, 1));
    // the board that was played on is untouched
    assert_eq!(board.count_pieces(), (2, 2));
    assert_eq!(board.get_piece(4, 5).unwrap(), None);
}

#[test]
fn play_agrees_with_is_move_valid_on_every_cell() {
    for (board, _) in positions_of_a_game() {
        for player in [Player::Black, Player::White] {
            for y in 0..8u8 {
                for x in 0..8u8 {
                    let valid = board.is_move_valid(player, x, y).unwrap();
                    let played = board.play(player, x, y).unwrap();
                    assert_eq!(played.is_some(), valid);
                }
            }
        }
    }
}

#[test]
fn accepted_move_adds_exactly_one_piece() {
    let positions = positions_of_a_game();
    assert!(positions.len() > 10);
    for pair in positions.windows(2) {
        let (before_black, before_white) = pair[0].0.count_pieces();
        let (after_black, after_white) = pair[1].0.count_pieces();
        assert_eq!(after_black + after_white, before_black + before_white + 1);
    }
}

#[test]
fn move_without_capture_is_refused_on_an_empty_cell() {
    let board = Board::new_start();
    assert_eq!(board.get_piece(0, 0).unwrap(), None);
    assert!(!board.is_move_valid(Player::Black, 0, 0).unwrap());
    assert!(board.play(Player::Black, 0, 0).unwrap().is_none());
    // next to an opponent's piece, but no own piece closes the run
    assert!(!board.is_move_valid(Player::Black, 2, 2).unwrap());
    // a run that reaches the edge captures nothing
    let mut board = Board::new();
    board.set_piece(6, 0, Some(Player::White)).unwrap();
    board.set_piece(7, 0, Some(Player::White)).unwrap();
    assert!(!board.is_move_valid(Player::Black, 5, 0).unwrap());
    // an empty cell interrupts the run
    let mut board = Board::new();
    board.set_piece(1, 0, Some(Player::White)).unwrap();
    board.set_piece(3, 0, Some(Player::Black)).unwrap();
    assert!(!board.is_move_valid(Player::Black, 0, 0).unwrap());
    board.set_piece(2, 0, Some(Player::White)).unwrap();
    assert!(board.is_move_valid(Player::Black, 0, 0).unwrap());
    let after = board.play(Player::Black, 0, 0).unwrap().unwrap();
    assert_eq!(after.to_text().lines().next(), Some("XXXX    ."));
}

#[test]
fn reversed_navigator_retraces_its_way() {
    let mut forward = CellsNavigator::new((2, 2), (1, 1)).unwrap();
    assert_eq!(forward.next(), Some((3, 3)));
    assert_eq!(forward.next(), Some((4, 4)));
    assert_eq!(forward.next(), Some((5, 5)));
    forward.reverse();
    assert_eq!(forward.next(), Some((4, 4)));
    assert_eq!(forward.next(), Some((3, 3)));
    assert_eq!(forward.next(), Some((2, 2)));

    let mut west = CellsNavigator::new((1, 6), (-1, 0)).unwrap();
    assert_eq!(west.next(), Some((0, 6)));
    assert_eq!(west.next(), None);
    // a refused step leaves the navigator where it was
    assert_eq!(west.next(), None);
    west.reverse();
    assert_eq!(west.next(), Some((1, 6)));
}

#[test]
fn full_single_color_board_is_won() {
    for winner in [Player::Black, Player::White] {
        let mut board = Board::new();
        for y in 0..8 {
            for x in 0..8 {
                board.set_piece(x, y, Some(winner)).unwrap();
            }
        }
        let status = GameStatus::evaluate_board(&board);
        assert!(status.game_over());
        assert_eq!(status.winner(), Some(winner));
        assert_eq!(status.pieces_count(winner), 64);
        assert_eq!(status.pieces_count(winner.opponent()), 0);
        assert!(!status.can_player_move(Player::Black));
        assert!(!status.can_player_move(Player::White));
    }
}

#[test]
fn blocked_position_with_equal_counts_is_a_draw() {
    let mut board = Board::new();
    for y in 0..8 {
        for x in 0..8 {
            let piece = if y < 4 { Player::Black } else { Player::White };
            board.set_piece(x, y, Some(piece)).unwrap();
        }
    }
    let status = GameStatus::evaluate_board(&board);
    assert_eq!(status.pieces_count(Player::Black), 32);
    assert_eq!(status.pieces_count(Player::White), 32);
    assert!(status.game_over());
    assert_eq!(status.winner(), None);
}

#[test]
fn status_of_the_start_position() {
    let status = GameStatus::evaluate_board(&Board::new_start());
    assert_eq!(status.pieces_count(Player::Black), 2);
    assert_eq!(status.pieces_count(Player::White), 2);
    assert!(status.can_player_move(Player::Black));
    assert!(status.can_player_move(Player::White));
    assert!(!status.game_over());
    assert_eq!(status.winner(), None);
    let status = GameStatus::default();
    assert!(status.game_over());
    assert_eq!(status.winner(), None);
    assert_eq!(status.pieces_count(Player::Black), 0);
}

#[test]
fn unfinished_game_has_no_winner_whatever_the_counts() {
    let board = Board::new_start()
        .play(Player::Black, 4, 5)
        .unwrap()
        .unwrap();
    let status = GameStatus::evaluate_board(&board);
    assert_eq!(status.pieces_count(Player::Black), 4);
    assert_eq!(status.pieces_count(Player::White), 1);
    assert_eq!(status.winner(), None);
}

#[test]
fn evaluation_weighs_cells_by_their_place() {
    // inside cells count 1
    let board = Board::new_start()
        .play(Player::Black, 4, 5)
        .unwrap()
        .unwrap();
    assert_eq!(Evaluator::evaluate(&board, Player::Black), 3);
    assert_eq!(Evaluator::evaluate(&board, Player::White), 3);
    // a corner counts 8, a border cell 4
    let mut board = Board::new_start();
    board.set_piece(0, 0, Some(Player::Black)).unwrap();
    assert_eq!(Evaluator::evaluate(&board, Player::Black), 8);
    board.set_piece(7, 3, Some(Player::White)).unwrap();
    assert_eq!(Evaluator::evaluate(&board, Player::Black), 4);
    board.set_piece(7, 7, Some(Player::White)).unwrap();
    assert_eq!(Evaluator::evaluate(&board, Player::Black), -4);
    board.set_piece(3, 0, Some(Player::White)).unwrap();
    assert_eq!(Evaluator::evaluate(&board, Player::White), -8);
}

#[test]
fn evaluation_rewards_a_blocked_opponent() {
    // Black can take (1,0) from (2,0); White cannot move.
    let mut board = Board::new();
    board.set_piece(0, 0, Some(Player::Black)).unwrap();
    board.set_piece(1, 0, Some(Player::White)).unwrap();
    assert!(board.can_player_move(Player::Black));
    assert!(!board.can_player_move(Player::White));
    // corner 8 for Black, border 4 for White, bonus 4 for Black
    assert_eq!(Evaluator::evaluate(&board, Player::Black), 8);
    // after a move of White his opponent, Black, is not blocked
    assert_eq!(Evaluator::evaluate(&board, Player::White), 4);
    // the same with the colors exchanged
    let mut board = Board::new();
    board.set_piece(0, 0, Some(Player::White)).unwrap();
    board.set_piece(1, 0, Some(Player::Black)).unwrap();
    assert_eq!(Evaluator::evaluate(&board, Player::White), -8);
    assert_eq!(Evaluator::evaluate(&board, Player::Black), -4);
}

#[test]
fn evaluation_of_a_finished_game_is_decisive() {
    let mut board = Board::new();
    board.set_piece(0, 0, Some(Player::Black)).unwrap();
    assert_eq!(Evaluator::evaluate(&board, Player::Black), i32::MAX);
    assert_eq!(Evaluator::evaluate(&board, Player::White), i32::MAX);
    board.set_piece(7, 7, Some(Player::White)).unwrap();
    assert_eq!(Evaluator::evaluate(&board, Player::Black), 0);
    board.set_piece(7, 0, Some(Player::White)).unwrap();
    assert_eq!(Evaluator::evaluate(&board, Player::Black), -i32::MAX);
    assert_eq!(Evaluator::evaluate(&board, Player::White), -2147483647);
}

#[test]
fn search_without_a_legal_move_finds_nothing() {
    let mut board = Board::new();
    board.set_piece(0, 0, Some(Player::Black)).unwrap();
    board.set_piece(1, 0, Some(Player::White)).unwrap();
    let mut minimax = Minimax::new(3);
    let mut alpha_beta = AlphaBeta::new(3);
    assert_eq!(minimax.compute_move(&board, Player::White), None);
    assert_eq!(alpha_beta.compute_move(&board, Player::White), None);
    assert_eq!(minimax.move_count(), 0);
    assert_eq!(alpha_beta.move_count(), 0);
    assert_eq!(minimax.compute_move(&board, Player::Black), Some((2, 0)));
    assert_eq!(alpha_beta.compute_move(&board, Player::Black), Some((2, 0)));
    // the move ends the game: one move explored, whatever the depth
    assert_eq!(minimax.move_count(), 1);
    assert_eq!(alpha_beta.move_count(), 1);
}

#[test]
fn equal_moves_are_settled_by_row_major_order() {
    // From the start position the four moves of Black are worth the same
    // at depth 1. Row by row, x running fastest, (3,2) comes first.
    let board = Board::new_start();
    for (x, y) in [(2, 3), (3, 2), (4, 5), (5, 4)] {
        let after = board.play(Player::Black, x, y).unwrap().unwrap();
        assert_eq!(Evaluator::evaluate(&after, Player::Black), 3);
    }
    let mut minimax = Minimax::new(1);
    assert_eq!(minimax.compute_move(&board, Player::Black), Some((3, 2)));
    let mut alpha_beta = AlphaBeta::new(1);
    assert_eq!(alpha_beta.compute_move(&board, Player::Black), Some((3, 2)));
    // for White the four moves are (2,4), (3,5), (4,2), (5,3): (4,2) is first
    let mut minimax = Minimax::new(1);
    assert_eq!(minimax.compute_move(&board, Player::White), Some((4, 2)));
}

#[test]
fn move_count_adds_up_over_the_calls() {
    let board = Board::new_start();
    let mut minimax = Minimax::new(1);
    assert_eq!(minimax.move_count(), 0);
    minimax.compute_move(&board, Player::Black);
    assert_eq!(minimax.move_count(), 4);
    minimax.compute_move(&board, Player::Black);
    assert_eq!(minimax.move_count(), 8);
    // at depth 2 each of the four moves has three replies
    let mut minimax = Minimax::new(2);
    minimax.compute_move(&board, Player::Black);
    assert_eq!(minimax.move_count(), 16);
    let mut alpha_beta = AlphaBeta::new(2);
    alpha_beta.compute_move(&board, Player::Black);
    assert_eq!(alpha_beta.move_count(), 16);
}

#[test]
fn alpha_beta_finds_the_move_of_minimax_with_no_more_moves_explored() {
    for depth in 1..=3u8 {
        for (board, player) in positions_of_a_game() {
            let mut minimax = Minimax::new(depth);
            let mut alpha_beta = AlphaBeta::new(depth);
            let expected = minimax.compute_move(&board, player);
            let found = alpha_beta.compute_move(&board, player);
            assert_eq!(found, expected);
            assert!(alpha_beta.move_count() <= minimax.move_count());
            if let Some((x, y)) = found {
                assert!(board.is_move_valid(player, x, y).unwrap());
            } else {
                assert!(!board.can_player_move(player));
            }
        }
    }
}

#[test]
fn alpha_beta_stops_at_a_decisive_move_of_black() {
    // Black can take the white piece of row 0 from (2,0) and that of row 7
    // from (2,7). After either move White is blocked and Black moves again,
    // takes the last white piece and wins. The first move, (2,0), is thus
    // decisive: exhaustive search still looks at (2,7), the pruned search
    // does not.
    let mut board = Board::new();
    board.set_piece(0, 0, Some(Player::Black)).unwrap();
    board.set_piece(1, 0, Some(Player::White)).unwrap();
    board.set_piece(0, 7, Some(Player::Black)).unwrap();
    board.set_piece(1, 7, Some(Player::White)).unwrap();
    let mut minimax = Minimax::new(2);
    let mut alpha_beta = AlphaBeta::new(2);
    assert_eq!(minimax.compute_move(&board, Player::Black), Some((2, 0)));
    assert_eq!(alpha_beta.compute_move(&board, Player::Black), Some((2, 0)));
    assert_eq!(minimax.move_count(), 4);
    assert_eq!(alpha_beta.move_count(), 2);
    // at depth 1 nothing lies below the moves and nothing is cut
    let mut minimax = Minimax::new(1);
    let mut alpha_beta = AlphaBeta::new(1);
    assert_eq!(minimax.compute_move(&board, Player::Black), Some((2, 0)));
    assert_eq!(alpha_beta.compute_move(&board, Player::Black), Some((2, 0)));
    assert_eq!(minimax.move_count(), 2);
    assert_eq!(alpha_beta.move_count(), 2);
    // for White the mirror position is decisive too, but White's side of
    // the full window is never reached and the node is not cut
    let mut board = Board::new();
    board.set_piece(0, 0, Some(Player::White)).unwrap();
    board.set_piece(1, 0, Some(Player::Black)).unwrap();
    board.set_piece(0, 7, Some(Player::White)).unwrap();
    board.set_piece(1, 7, Some(Player::Black)).unwrap();
    let mut minimax = Minimax::new(2);
    let mut alpha_beta = AlphaBeta::new(2);
    assert_eq!(minimax.compute_move(&board, Player::White), Some((2, 0)));
    assert_eq!(alpha_beta.compute_move(&board, Player::White), Some((2, 0)));
    assert_eq!(minimax.move_count(), 4);
    assert_eq!(alpha_beta.move_count(), 4);
}
