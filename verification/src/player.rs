//! The two sides of a game.

use vstd::prelude::*;

verus! {

/// Othello players.
#[derive(Clone, Copy, Debug, PartialEq, Eq, Structural)]
pub enum Player {
    Black,
    White,
}

impl Player {
    /// The other side.
    pub open spec fn other(self) -> Player {
        match self {
            Player::Black => Player::White,
            Player::White => Player::Black,
        }
    }

    /// Returns the opponent of the player.
    #[verifier::when_used_as_spec(other)]
    pub fn opponent(self) -> (r: Player)
        ensures
            r == self.other(),
    {
        if self == Player::Black {
            Player::White
        } else {
            Player::Black
        }
    }

    /// The name of the player as text.
    pub open spec fn name_text(self) -> Seq<char> {
        match self {
            Player::Black => "Black"@,
            Player::White => "White"@,
        }
    }

    /// The name of the player: `Black` or `White`.
    pub fn name(self) -> (r: &'static str)
        ensures
            r@ == self.name_text(),
    {
        match self {
            Player::Black => "Black",
            Player::White => "White",
        }
    }

    /// Taking the opponent twice gives the player back.
    pub proof fn lemma_opponent_involution(self)
        ensures
            self.other().other() == self,
            self.other() != self,
    {
    }
}

} // verus!
