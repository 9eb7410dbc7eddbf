use rusthello::{board_to_ascii, Board};

#[test]
fn board_to_ascii_produce_ascii_representation_of_a_board() {
    // The dots aren't parts of the expected board representation.
    // They're purpose is to manage alignment, there are removed
    // before the comparison.
    let expected = "    A   B   C   D   E   F   G   H\n\
                         . +---+---+---+---+---+---+---+---+\n\
                         1 |   |   |   |   |   |   |   |   |\n\
                         . +---+---+---+---+---+---+---+---+\n\
                         2 |   |   |   |   |   |   |   |   |\n\
                         . +---+---+---+---+---+---+---+---+\n\
                         3 |   |   |   |   |   |   |   |   |\n\
                         . +---+---+---+---+---+---+---+---+\n\
                         4 |   |   |   | O | X |   |   |   |\n\
                         . +---+---+---+---+---+---+---+---+\n\
                         5 |   |   |   | X | O |   |   |   |\n\
                         . +---+---+---+---+---+---+---+---+\n\
                         6 |   |   |   |   |   |   |   |   |\n\
                         . +---+---+---+---+---+---+---+---+\n\
                         7 |   |   |   |   |   |   |   |   |\n\
                         . +---+---+---+---+---+---+---+---+\n\
                         8 |   |   |   |   |   |   |   |   |\n\
                         . +---+---+---+---+---+---+---+---+\n";

    let expected = expected.replace(".", " ");
    let board = Board::new_start();
    let ascii = board_to_ascii(&board);
    assert_eq!(ascii, expected);
}
