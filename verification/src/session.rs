//! A game between a human player and an artificial opponent.

use vstd::prelude::*;
use crate::error::GameError;
use crate::game::{Game, GameView};
use crate::player::Player;
use crate::rules::is_legal_move;
use crate::virtual_player::VirtualPlayer;

verus! {

/// Why the artificial opponent does not play.
#[derive(Clone, Copy, Debug, PartialEq, Eq, Structural)]
pub enum ComputerPlayError {
    /// Nobody, human or not, can play: the game is over.
    GameOver,
    /// It is the turn of the human player.
    HumanTurn,
}

impl ComputerPlayError {
    /// The failure in words.
    pub open spec fn message_text(self) -> Seq<char> {
        match self {
            ComputerPlayError::GameOver => "Nobody (human or not) can play."@,
            ComputerPlayError::HumanTurn => "It's the turn of the humain player, not the computer one."@,
        }
    }

    /// Describes the failure for a reader.
    pub fn message(&self) -> (r: &'static str)
        ensures
            r@ == self.message_text(),
    {
        match self {
            ComputerPlayError::GameOver => "Nobody (human or not) can play.",
            ComputerPlayError::HumanTurn => "It's the turn of the humain player, not the computer one.",
        }
    }
}

/// Lets the artificial opponent of `human` make its move, where it is its
/// turn. The opponent is asked for a move, which exists and is legal as the
/// turn is its own, and the move is played; the cell is returned. Where the
/// game is over or the turn is the human's nothing happens.
pub fn computer_play<P: VirtualPlayer>(game: &mut Game, human: Player, computer: &mut P) -> (r:
    Result<(u8, u8), ComputerPlayError>)
    ensures
        final(game)@.valid(),
        final(computer).explored() >= old(computer).explored(),
        match r {
            Ok(cell) => old(game)@.player == Some(human.other()) && is_legal_move(
                old(game)@.board,
                human.other(),
                cell.0 as int,
                cell.1 as int,
            ) && old(game)@.play_result(human.other(), cell.0, cell.1) == Ok::<
                GameView,
                GameError,
            >(final(game)@),
            Err(e) => final(game)@ == old(game)@ && e == if old(game)@.player is None {
                ComputerPlayError::GameOver
            } else {
                ComputerPlayError::HumanTurn
            } && old(game)@.player != Some(human.other()),
        },
{
    match game.player() {
        None => {
            return Err(ComputerPlayError::GameOver);
        },
        Some(p) => {
            if p == human {
                return Err(ComputerPlayError::HumanTurn);
            }
        },
    }
    let computer_move = computer.compute_move(game.board(), human.opponent());
    let (x, y) = computer_move.unwrap();
    let played = game.play(human.opponent(), x, y);
    Ok((x, y))
}

} // verus!
