//! The words exchanged with a human player: what he answers when asked for
//! a move, and what he is told about the game.

use vstd::prelude::*;
use vstd::string::{StrSliceExecFns, StringExecFns};
use crate::ascii_board::{board_ascii, board_to_ascii};
use crate::game::{Game, GameView};
use crate::player::Player;
use crate::rules::pieces;
use crate::text::{append_decimal, decimal};

verus! {

/// What a human player asks for.
#[derive(Clone, Copy, Debug, PartialEq, Eq, Structural)]
pub enum Choice {
    /// To leave the game.
    Quit,
    /// To play at the cell `(x, y)`.
    Move { x: u8, y: u8 },
}

/// The text that `str::to_uppercase` makes of a text.
pub uninterp spec fn uppercase_of(text: Seq<char>) -> Seq<char>;

/// Calls `str::to_uppercase`, which returns the uppercase equivalent of the
/// text as a new string. Nothing is claimed of the result but that it
/// depends on the text alone.
#[verifier::external_body]
fn to_uppercase(text: &str) -> (r: String)
    ensures
        r@ == uppercase_of(text@),
{
    text.to_uppercase()
}

/// Calls `String::push`, which appends the character to the end of the
/// string.
#[verifier::external_body]
fn push_char(text: &mut String, c: char)
    ensures
        final(text)@ == old(text)@.push(c),
{
    text.push(c)
}

/// Calls `String::pop`, which removes the last character of the string and
/// returns it, and returns nothing where the string is empty.
#[verifier::external_body]
fn pop_char(text: &mut String) -> (r: Option<char>)
    ensures
        old(text)@.len() == 0 ==> r is None && final(text)@ == old(text)@,
        old(text)@.len() > 0 ==> r == Some(old(text)@.last()) && final(text)@ == old(
            text,
        )@.drop_last(),
{
    text.pop()
}

/// Calls `char::from_u32`, which gives the character with the given code,
/// and nothing where the code is a surrogate or lies above `0x10FFFF`.
#[verifier::external_body]
fn char_from_code(code: u32) -> (r: Option<char>)
    ensures
        r == if code <= 0xD7FF || (0xE000 <= code && code <= 0x10FFFF) {
            Some(code as char)
        } else {
            None
        },
{
    char::from_u32(code)
}

/// What an answer in capital letters asks for: `Q` to quit, a column
/// letter from `A` to `H` followed by a row digit from `1` to `8` to move,
/// and nothing else.
pub open spec fn choice_of(upper: Seq<char>) -> Option<Choice> {
    if upper == seq!['Q'] {
        Some(Choice::Quit)
    } else if upper.len() == 2 && 'A' <= upper[0] <= 'H' && '1' <= upper[1] <= '8' {
        Some(Choice::Move { x: (upper[0] as u32 - 'A' as u32) as u8, y: (upper[1] as u32 - '1' as u32) as u8 })
    } else {
        None
    }
}

/// Reads a choice from an answer that is already in capital letters.
pub fn parse_choice(upper: &str) -> (r: Option<Choice>)
    ensures
        r == choice_of(upper@),
        r matches Some(Choice::Move { x, y }) ==> x < 8 && y < 8,
{
    let length = upper.unicode_len();
    if length == 1 && upper.get_char(0) == 'Q' {
        assert(upper@ =~= seq!['Q']);
        return Some(Choice::Quit);
    }
    if length != 2 {
        return None;
    }
    let column = upper.get_char(0) as u32;
    let row = upper.get_char(1) as u32;
    // 'A' = 65, '1' = 49
    if column < 65 || column > 72 || row < 49 || row > 56 {
        return None;
    }
    Some(Choice::Move { x: (column - 65) as u8, y: (row - 49) as u8 })
}

/// Reads the answer of a player, in capital or small letters.
pub fn parse_response(s: String) -> (r: Option<Choice>)
    ensures
        r == choice_of(uppercase_of(s@)),
        r matches Some(Choice::Move { x, y }) ==> x < 8 && y < 8,
{
    let s = to_uppercase(s.as_str());
    parse_choice(s.as_str())
}

/// A text without the line breaks and carriage returns at its end.
pub open spec fn without_line_end(text: Seq<char>) -> Seq<char>
    decreases text.len(),
{
    if text.len() > 0 && (text.last() == '\n' || text.last() == '\r') {
        without_line_end(text.drop_last())
    } else {
        text
    }
}

/// Removes the line breaks and carriage returns at the end of a text.
pub fn trim_newline(s: &mut String)
    ensures
        final(s)@ == without_line_end(old(s)@),
{
    loop
        invariant
            without_line_end(s@) == without_line_end(old(s)@),
        ensures
            s@ == without_line_end(old(s)@),
        decreases s@.len(),
    {
        let length = s.as_str().unicode_len();
        if length == 0 {
            break ;
        }
        let last = s.as_str().get_char(length - 1);
        if last == '\n' || last == '\r' {
            let _ = pop_char(s);
        } else {
            break ;
        }
    }
}

/// The cell `(x, y)` as a player reads it: the letter of the column, `A`
/// for the first, and the number of the row, counted from 1.
pub open spec fn coordinates_text(x: u8, y: u8) -> Seq<char> {
    seq!['(', ('A' as u32 + x as u32) as char, ',', ' '] + decimal((y + 1) as nat) + seq![')']
}

/// Names a cell for a reader.
pub fn readable_coordinates(x: u8, y: u8) -> (r: String)
    requires
        y < u8::MAX,
    ensures
        r@ == coordinates_text(x, y),
{
    let digit = y + 1;
    let mut text = String::new();
    push_char(&mut text, '(');
    match char_from_code(65 + x as u32) {
        Some(letter) => {
            push_char(&mut text, letter);
        },
        None => {},
    }
    push_char(&mut text, ',');
    push_char(&mut text, ' ');
    append_decimal(&mut text, digit);
    push_char(&mut text, ')');
    text
}

/// The rule that is printed above a report.
pub open spec fn rule_line() -> Seq<char> {
    "------------------------------------------------------------\n"@
}

/// What a player is told of a game: the board, the score, and either how
/// the game ended or whose turn it is, with a word on the opponent where
/// he had to pass.
pub open spec fn report_text(game: GameView) -> Seq<char> {
    rule_line() + board_ascii(game.board) + "\nBlack "@ + decimal(pieces(game.board, Player::Black))
        + " - "@ + decimal(pieces(game.board, Player::White)) + " White\n"@ + match game.player {
        None => "The game is over !\n"@ + match game.status().winner() {
            Some(winner) => "And the winner is : "@ + winner.name_text() + ".\n"@,
            None => "The game ends in a draw.\n"@,
        },
        Some(player) => (if game.opponent_is_blocked {
            "The turn does not change as "@ + player.other().name_text() + " can't move.\n"@
        } else {
            Seq::empty()
        }) + "It's the turn of "@ + player.name_text() + ".\n"@,
    }
}

/// Tells a player where the game stands.
pub fn status_report(game: &Game) -> (r: String)
    ensures
        r@ == report_text(game@),
{
    let mut text = String::new();
    text.append("------------------------------------------------------------\n");
    let ascii = board_to_ascii(game.board());
    text.append(ascii.as_str());
    let (black_pieces, white_pieces) = game.count_pieces();
    text.append("\nBlack ");
    append_decimal(&mut text, black_pieces);
    text.append(" - ");
    append_decimal(&mut text, white_pieces);
    text.append(" White\n");
    match game.player() {
        None => {
            text.append("The game is over !\n");
            if let Some(winner) = game.winner() {
                text.append("And the winner is : ");
                text.append(winner.name());
                text.append(".\n");
            } else {
                text.append("The game ends in a draw.\n");
            }
        },
        Some(player) => {
            if game.opponent_is_blocked() {
                text.append("The turn does not change as ");
                text.append(player.opponent().name());
                text.append(" can't move.\n");
            }
            text.append("It's the turn of ");
            text.append(player.name());
            text.append(".\n");
        },
    }
    text
}

} // verus!
