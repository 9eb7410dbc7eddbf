//! A snapshot of a position: how many pieces each side has and whether it
//! can move.

use vstd::prelude::*;
use crate::board::Board;
use crate::player::Player;
use crate::rules::{
    Grid, can_move, count_in, is_grid, lemma_count_bound, lemma_full_grid_is_blocked, pieces,
};

verus! {

/// What a [`GameStatus`] stands for.
pub struct StatusView {
    pub black_pieces: nat,
    pub white_pieces: nat,
    pub black_can_move: bool,
    pub white_can_move: bool,
}

impl StatusView {
    /// The count of pieces of the given player.
    pub open spec fn pieces_count(self, player: Player) -> nat {
        match player {
            Player::Black => self.black_pieces,
            Player::White => self.white_pieces,
        }
    }

    /// Whether the given player can move.
    pub open spec fn can_player_move(self, player: Player) -> bool {
        match player {
            Player::Black => self.black_can_move,
            Player::White => self.white_can_move,
        }
    }

    /// The game is over when neither side can move.
    pub open spec fn game_over(self) -> bool {
        !self.black_can_move && !self.white_can_move
    }

    /// The side with strictly more pieces once the game is over; nobody
    /// before that, and nobody in a draw.
    pub open spec fn winner(self) -> Option<Player> {
        if !self.game_over() || self.black_pieces == self.white_pieces {
            None
        } else if self.black_pieces > self.white_pieces {
            Some(Player::Black)
        } else {
            Some(Player::White)
        }
    }
}

/// The status of a position.
pub open spec fn status_of(g: Grid) -> StatusView {
    StatusView {
        black_pieces: pieces(g, Player::Black),
        white_pieces: pieces(g, Player::White),
        black_can_move: can_move(g, Player::Black),
        white_can_move: can_move(g, Player::White),
    }
}

/// GameStatus implement cross-cutting concerns about a game.
/// It's useful for the game workflow and virtual players implementations.
pub struct GameStatus {
    black_can_move: bool,
    white_can_move: bool,
    black_pieces: u8,
    white_pieces: u8,
}

impl View for GameStatus {
    type V = StatusView;

    closed spec fn view(&self) -> StatusView {
        StatusView {
            black_pieces: self.black_pieces as nat,
            white_pieces: self.white_pieces as nat,
            black_can_move: self.black_can_move,
            white_can_move: self.white_can_move,
        }
    }
}

impl Default for GameStatus {
    /// The status of a board on which nothing stands and nobody moves.
    fn default() -> (r: Self)
        ensures
            r@ == (StatusView {
                black_pieces: 0,
                white_pieces: 0,
                black_can_move: false,
                white_can_move: false,
            }),
    {
        GameStatus { black_can_move: false, white_can_move: false, black_pieces: 0, white_pieces: 0 }
    }
}

impl GameStatus {
    /// Build a GameStatus from a board.
    pub fn evaluate_board(board: &Board) -> (r: Self)
        ensures
            r@ == status_of(board@),
    {
        let mut black_can_move = false;
        let mut white_can_move = false;
        let (black_pieces, white_pieces) = board.count_pieces();
        if (black_pieces + white_pieces) != 64 {
            black_can_move = board.can_player_move(Player::Black);
            white_can_move = board.can_player_move(Player::White);
        } else {
            proof {
                lemma_full_grid_is_blocked(board@, Player::Black);
                lemma_full_grid_is_blocked(board@, Player::White);
            }
        }
        Self { black_can_move, white_can_move, black_pieces, white_pieces }
    }

    /// Returns the count of pieces for the given player.
    pub fn pieces_count(&self, player: Player) -> (r: u8)
        ensures
            r == self@.pieces_count(player),
    {
        match player {
            Player::Black => self.black_pieces,
            Player::White => self.white_pieces,
        }
    }

    /// Can a given player move ?
    pub fn can_player_move(&self, player: Player) -> (r: bool)
        ensures
            r == self@.can_player_move(player),
    {
        match player {
            Player::Black => self.black_can_move,
            Player::White => self.white_can_move,
        }
    }

    /// Is the game over ?
    pub fn game_over(&self) -> (r: bool)
        ensures
            r == self@.game_over(),
    {
        !self.black_can_move && !self.white_can_move
    }

    /// Who won the game ?
    pub fn winner(&self) -> (r: Option<Player>)
        ensures
            r == self@.winner(),
    {
        if !self.game_over() || self.black_pieces == self.white_pieces {
            None
        } else {
            if self.black_pieces > self.white_pieces {
                Some(Player::Black)
            } else {
                Some(Player::White)
            }
        }
    }
}

/// Where every cell holds a piece of `who`, the first `n` cells hold `n`
/// pieces of `who` and none of his opponent.
proof fn lemma_uniform_count(g: Grid, who: Player, n: int)
    requires
        0 <= n <= 64,
        forall|i: int| 0 <= i < 64 ==> g[i] == Some(who),
    ensures
        count_in(g, who, n) == n,
        count_in(g, who.other(), n) == 0,
    decreases n,
{
    if n > 0 {
        lemma_uniform_count(g, who, n - 1);
    }
}

/// A board on which every cell holds a piece of one color is a finished
/// game, and that color has won it.
pub proof fn lemma_uniform_board_is_won(g: Grid, who: Player)
    requires
        is_grid(g),
        forall|i: int| 0 <= i < 64 ==> g[i] == Some(who),
    ensures
        status_of(g).game_over(),
        status_of(g).winner() == Some(who),
{
    lemma_uniform_count(g, who, 64);
    lemma_full_grid_is_blocked(g, Player::Black);
    lemma_full_grid_is_blocked(g, Player::White);
}

/// A position in which neither side can move and both have as many pieces,
/// 32 each on a full board, is a draw: it has no winner.
pub proof fn lemma_blocked_tie_is_draw(g: Grid)
    requires
        pieces(g, Player::Black) == pieces(g, Player::White),
        !can_move(g, Player::Black),
        !can_move(g, Player::White),
    ensures
        status_of(g).game_over(),
        status_of(g).winner() is None,
{
}

/// The counts of a status never exceed the 64 cells of the board.
pub proof fn lemma_status_counts(g: Grid)
    ensures
        status_of(g).black_pieces + status_of(g).white_pieces <= 64,
{
    lemma_count_bound(g, 64);
}

} // verus!
