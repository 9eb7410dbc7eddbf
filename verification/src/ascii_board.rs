//! A framed picture of a board in plain text.

use vstd::prelude::*;
use vstd::string::StringExecFns;
use crate::board::Board;
use crate::player::Player;
use crate::rules::{Grid, cell};

verus! {

/// The line that names the columns.
pub open spec fn letters_line() -> Seq<char> {
    "    A   B   C   D   E   F   G   H\n"@
}

/// The line that parts two rows.
pub open spec fn separator_line() -> Seq<char> {
    "  +---+---+---+---+---+---+---+---+\n"@
}

/// The picture of one cell, with its left border.
pub open spec fn cell_ascii(piece: Option<Player>) -> Seq<char> {
    match piece {
        None => "|   "@,
        Some(Player::Black) => "| X "@,
        Some(Player::White) => "| O "@,
    }
}

/// The number of the row `y`, counted from 1, and a blank.
pub open spec fn row_label(y: int) -> Seq<char> {
    if y == 0 {
        "1 "@
    } else if y == 1 {
        "2 "@
    } else if y == 2 {
        "3 "@
    } else if y == 3 {
        "4 "@
    } else if y == 4 {
        "5 "@
    } else if y == 5 {
        "6 "@
    } else if y == 6 {
        "7 "@
    } else {
        "8 "@
    }
}

/// The pictures of the first `n` cells of the row `y`.
pub open spec fn cells_ascii(g: Grid, y: int, n: nat) -> Seq<char>
    decreases n,
{
    if n == 0 {
        Seq::empty()
    } else {
        cells_ascii(g, y, (n - 1) as nat) + cell_ascii(cell(g, n - 1, y))
    }
}

/// The two lines of the row `y`: a separator, then the label, the cells
/// and the right border.
pub open spec fn row_ascii(g: Grid, y: int) -> Seq<char> {
    separator_line() + row_label(y) + cells_ascii(g, y, 8) + "|\n"@
}

/// The lines of the first `n` rows.
pub open spec fn rows_ascii(g: Grid, n: nat) -> Seq<char>
    decreases n,
{
    if n == 0 {
        Seq::empty()
    } else {
        rows_ascii(g, (n - 1) as nat) + row_ascii(g, n - 1)
    }
}

/// The picture of the whole board: the column letters, the eight rows and a
/// closing separator.
pub open spec fn board_ascii(g: Grid) -> Seq<char> {
    letters_line() + rows_ascii(g, 8) + separator_line()
}

/// Builds an ascii representation of a board.
pub fn board_to_ascii(board: &Board) -> (r: String)
    ensures
        r@ == board_ascii(board@),
{
    let mut ascii = String::new();
    ascii.append("    A   B   C   D   E   F   G   H\n");
    let mut y: u8 = 0;
    while y < 8
        invariant
            0 <= y <= 8,
            ascii@ == letters_line() + rows_ascii(board@, y as nat),
        decreases 8 - y,
    {
        ascii.append("  +---+---+---+---+---+---+---+---+\n");
        ascii.append(label_of_row(y));
        let ghost left = ascii@;
        let mut x: u8 = 0;
        while x < 8
            invariant
                0 <= x <= 8,
                0 <= y < 8,
                ascii@ == left + cells_ascii(board@, y as int, x as nat),
            decreases 8 - x,
        {
            let piece = match board.get_piece(x, y) {
                Ok(piece) => piece,
                Err(_) => None,
            };
            ascii.append(cell_to_ascii(piece));
            x += 1;
        }
        ascii.append("|\n");
        y += 1;
    }
    ascii.append("  +---+---+---+---+---+---+---+---+\n");
    ascii
}

fn cell_to_ascii(piece: Option<Player>) -> (r: &'static str)
    ensures
        r@ == cell_ascii(piece),
{
    match piece {
        None => "|   ",
        Some(Player::Black) => "| X ",
        Some(Player::White) => "| O ",
    }
}

fn label_of_row(y: u8) -> (r: &'static str)
    requires
        y < 8,
    ensures
        r@ == row_label(y as int),
{
    if y == 0 {
        "1 "
    } else if y == 1 {
        "2 "
    } else if y == 2 {
        "3 "
    } else if y == 3 {
        "4 "
    } else if y == 4 {
        "5 "
    } else if y == 5 {
        "6 "
    } else if y == 6 {
        "7 "
    } else {
        "8 "
    }
}

} // verus!
