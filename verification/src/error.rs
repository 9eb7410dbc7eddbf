//! The failures that the library reports.

use vstd::prelude::*;
use vstd::string::StringExecFns;
use crate::player::Player;
use crate::text::{append_decimal, append_signed_decimal, decimal, signed_decimal};

verus! {

/// A request that names no cell or no direction of the board.
#[derive(Clone, Copy, Debug, PartialEq, Eq, Structural)]
pub enum BoardError {
    /// A coordinate lies outside `0..=7`.
    CoordinatesOutOfRange { x: u8, y: u8 },
    /// A component of a direction lies outside `-1..=1`.
    DirectionOutOfRange { dx: i8, dy: i8 },
}

/// A move that a game does not accept. The game is left as it was.
#[derive(Clone, Copy, Debug, PartialEq, Eq, Structural)]
pub enum GameError {
    /// None of the players can move: the game is over.
    GameOver,
    /// It is the turn of `expected`, not of `requested`.
    WrongTurn { expected: Player, requested: Player },
    /// A coordinate lies outside `0..=7`.
    CoordinatesOutOfRange { x: u8, y: u8 },
    /// The cell is occupied, or the move captures nothing.
    IllegalMove,
}

/// What is said of coordinates that name no cell.
pub open spec fn out_of_range_text(x: u8, y: u8) -> Seq<char> {
    "the given coordinates are out of range : ("@ + decimal(x as nat) + ", "@ + decimal(y as nat)
        + ")"@
}

/// Says that the coordinates `(x, y)` name no cell.
fn out_of_range_message(x: u8, y: u8) -> (r: String)
    ensures
        r@ == out_of_range_text(x, y),
{
    let mut text = String::new();
    text.append("the given coordinates are out of range : (");
    append_decimal(&mut text, x);
    text.append(", ");
    append_decimal(&mut text, y);
    text.append(")");
    text
}

impl BoardError {
    /// The failure in words.
    pub open spec fn message_text(self) -> Seq<char> {
        match self {
            BoardError::CoordinatesOutOfRange { x, y } => out_of_range_text(x, y),
            BoardError::DirectionOutOfRange { dx, dy } => "the given direction is out of range : ("@
                + signed_decimal(dx as int) + ", "@ + signed_decimal(dy as int) + ")"@,
        }
    }

    /// Describes the failure for a reader.
    pub fn message(&self) -> (r: String)
        ensures
            r@ == self.message_text(),
    {
        match self {
            BoardError::CoordinatesOutOfRange { x, y } => out_of_range_message(*x, *y),
            BoardError::DirectionOutOfRange { dx, dy } => {
                let mut text = String::new();
                text.append("the given direction is out of range : (");
                append_signed_decimal(&mut text, *dx);
                text.append(", ");
                append_signed_decimal(&mut text, *dy);
                text.append(")");
                text
            },
        }
    }
}

impl GameError {
    /// The failure in words.
    pub open spec fn message_text(self) -> Seq<char> {
        match self {
            GameError::GameOver => "None of the players can move, the game is over."@,
            GameError::WrongTurn { expected, requested } => "It's the turn of "@
                + expected.name_text() + ", not "@ + requested.name_text() + "."@,
            GameError::CoordinatesOutOfRange { x, y } => out_of_range_text(x, y),
            GameError::IllegalMove => "The move is invalid."@,
        }
    }

    /// Describes the failure for a reader.
    pub fn message(&self) -> (r: String)
        ensures
            r@ == self.message_text(),
    {
        match self {
            GameError::GameOver => String::from_str(
                "None of the players can move, the game is over.",
            ),
            GameError::WrongTurn { expected, requested } => {
                let mut text = String::new();
                text.append("It's the turn of ");
                text.append(expected.name());
                text.append(", not ");
                text.append(requested.name());
                text.append(".");
                text
            },
            GameError::CoordinatesOutOfRange { x, y } => out_of_range_message(*x, *y),
            GameError::IllegalMove => String::from_str("The move is invalid."),
        }
    }
}

} // verus!
