use rusthello::{Board, BoardError, CellsNavigator, GridIterator, Player};

#[test]
fn new_creates_empty_board() {
    let board = Board::new();
    for x in 0..8 {
        for y in 0..8 {
            let piece = board.get_piece(x, y).unwrap();
            assert_eq!(piece.is_none(), true);
        }
    }
}

#[test]
fn new_start_creates_a_ready_to_play_board() {
    let board = Board::new_start();
    for x in 0..8u8 {
        for y in 0..8u8 {
            let piece = board.get_piece(x, y).unwrap();
            if x < 3 || x > 4 || y < 3 || y > 4 {
                assert_eq!(piece.is_none(), true);
            } else if x == y {
                assert_eq!(piece, Some(Player::White));
            } else {
                assert_eq!(piece, Some(Player::Black));
            }
        }
    }
}

#[test]
fn set_piece() {
    let mut board = Board::new();
    board.set_piece(1, 2, Some(Player::Black)).unwrap();
    assert_eq!(board.get_piece(1, 2).unwrap(), Some(Player::Black))
}

#[test]
fn get_piece() {
    let mut board = Board::new();
    board.set_piece(3, 4, Some(Player::White)).unwrap();
    let piece = board.get_piece(3, 4).unwrap();
    assert_eq!(piece, Some(Player::White))
}

#[test]
fn bord_iterator_returns_cells_contents() {
    let mut board = Board::new();
    board.set_piece(1, 0, Some(Player::Black)).unwrap();
    let mut iterator = board.iter();
    assert_eq!(iterator.next(), Some((0, 0, None)));
    assert_eq!(iterator.next(), Some((1, 0, Some(Player::Black))));
}

#[test]
fn bord_iterator_iterate_over_all_cells() {
    let board = Board::new();
    let (mut i, mut j) = (0, 0);
    let mut count = 0;
    let mut iterator = board.iter();
    while let Some((x, y, _)) = iterator.next() {
        count += 1;
        assert_eq!(x, i);
        assert_eq!(y, j);
        i += 1;
        if i > 7 {
            i = 0;
            j += 1;
        }
    }
    assert_eq!(count, 64);
}

#[test]
fn is_move_valid_returns_none_for_non_empty_cell() {
    let board = Board::new_start();
    // cell already occupied by a white piece
    let is_valid = board.is_move_valid(Player::Black, 3, 3).unwrap();
    assert!(!is_valid);
    // cell already occupied by a black piece
    let is_valid = board.is_move_valid(Player::Black, 3, 4).unwrap();
    assert!(!is_valid);
}

#[test]
fn is_valid_move_returns_true_for_a_valid_one() {
    let board = Board::new_start();
    let is_valid = board.is_move_valid(Player::Black, 4, 5).unwrap();
    assert!(is_valid);
}

#[test]
fn play_invalid_move_if_cell_not_empty() {
    let board = Board::new_start();
    // cell already occupied by a white piece
    let result_after_move = board.play(Player::Black, 3, 3).unwrap();
    assert!(result_after_move.is_none());
    // cell already occupied by a black piece
    let result_after_move = board.play(Player::Black, 3, 4).unwrap();
    assert!(result_after_move.is_none());
}

#[test]
fn play_execute_simple_move() {
    let board = Board::new_start();
    let result_after_move = board.play(Player::Black, 4, 5).unwrap();
    assert!(result_after_move.is_some());
    let board_after_move = result_after_move.unwrap();
    assert_eq!(
        board_after_move.get_piece(4, 5).unwrap(),
        Some(Player::Black)
    );
    assert_eq!(
        board_after_move.get_piece(4, 4).unwrap(),
        Some(Player::Black)
    );
}

#[test]
fn play_execute_move_capuring_pieces_in_all_directions() {
    // The test board is made of :
    // * an outer square of black pieces
    // * an inner square of white pieces
    // * an empty cell a the center of both squares, at position (2, 2)
    let mut board = Board::new();
    for x in 0..=4 {
        for y in 0..=4 {
            if x == 0 || x == 4 || y == 0 || y == 4 {
                board.set_piece(x, y, Some(Player::Black)).unwrap()
            } else if x != 2 || y != 2 {
                board.set_piece(x, y, Some(Player::White)).unwrap()
            }
        }
    }

    let result_after_move = board.play(Player::Black, 2, 2).unwrap();
    assert!(result_after_move.is_some());
    let board_after_move = result_after_move.unwrap();

    for x in 0..=7 {
        for y in 0..=7 {
            if x < 5 && y < 5 {
                assert_eq!(
                    board_after_move.get_piece(x, y).unwrap(),
                    Some(Player::Black)
                );
            } else {
                assert_eq!(board_after_move.get_piece(x, y).unwrap(), None);
            }
        }
    }
}

#[test]
fn count_players_pieces() {
    let mut board = Board::new_start();
    board.set_piece(0, 0, Some(Player::White)).unwrap();
    let (black, white) = board.count_pieces();
    assert_eq!(black, 2);
    assert_eq!(white, 3)
}

#[test]
fn fmt_build_a_board_representation() {
    let board = Board::new_start();
    let mut expected = String::new();
    let empty_line = "        .\n";
    expected.push_str(empty_line);
    expected.push_str(empty_line);
    expected.push_str(empty_line);
    expected.push_str("   OX   .\n");
    expected.push_str("   XO   .\n");
    expected.push_str(empty_line);
    expected.push_str(empty_line);
    expected.push_str(empty_line);
    assert_eq!(board.to_text(), expected);
}

#[test]
fn grid_iterator_generates_all_coordonates() {
    let mut cells = [false; 64];
    let mut grid_iterator = GridIterator::new();
    while let Some((x, y)) = grid_iterator.next() {
        cells[(x + y * 8) as usize] = true;
    }
    assert!(cells.iter().all(|flag| *flag));
}

#[test]
fn cell_navigation() {
    let mut cn = CellsNavigator::new((3, 3), (1, -1)).unwrap();
    assert_eq!(cn.next(), Some((4, 2)));
    assert_eq!(cn.next(), Some((5, 1)));
    assert_eq!(cn.next(), Some((6, 0)));
    assert_eq!(cn.next(), None);
}

#[test]
fn cell_navigation_reverse() {
    let mut cn = CellsNavigator::new((3, 3), (1, -1)).unwrap();
    assert_eq!(cn.next(), Some((4, 2)));
    cn.reverse();
    assert_eq!(cn.next(), Some((3, 3)));
}

#[test]
fn coordinates_out_of_range_are_an_error() {
    let mut board = Board::new_start();
    assert_eq!(
        board.get_piece(8, 0),
        Err(BoardError::CoordinatesOutOfRange { x: 8, y: 0 })
    );
    assert_eq!(
        board.set_piece(0, 8, Some(Player::Black)),
        Err(BoardError::CoordinatesOutOfRange { x: 0, y: 8 })
    );
    assert_eq!(
        board.is_move_valid(Player::Black, 255, 255),
        Err(BoardError::CoordinatesOutOfRange { x: 255, y: 255 })
    );
    assert_eq!(
        board.play(Player::White, 3, 9).err(),
        Some(BoardError::CoordinatesOutOfRange { x: 3, y: 9 })
    );
    // the board is left as it was
    assert_eq!(board.count_pieces(), (2, 2));
}
