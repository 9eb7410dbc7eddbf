//! The static evaluation of a position.

use vstd::prelude::*;
use crate::board::Board;
use crate::game_status::{GameStatus, status_of};
use crate::player::Player;
use crate::rules::Grid;

verus! {

/// The game is over and there is a winner.
pub const SCORE_MAX: i32 = i32::MAX;

/// The game is over and there is no winner.
pub const SCORE_DRAW: i32 = 0;

/// Bonus if the opponent can't move the next turn.
pub const SCORE_OPPONENT_BLOCKED: i32 = 4;

/// Score of a piece that stands neither in a corner nor on the border.
pub const SCORE_INSIDE: i32 = 1;

/// Score of a piece on the border, outside the corners.
pub const SCORE_BORDER: i32 = 4;

/// Score of a piece in a corner.
pub const SCORE_CORNER: i32 = 8;

/// The cell is one of the four corners.
pub open spec fn is_corner(x: int, y: int) -> bool {
    (x == 0 || x == 7) && (y == 0 || y == 7)
}

/// The cell lies on an edge of the board.
pub open spec fn is_border(x: int, y: int) -> bool {
    x == 0 || x == 7 || y == 0 || y == 7
}

/// What a piece is worth by the place where it stands.
pub open spec fn cell_weight(x: int, y: int) -> int {
    if is_corner(x, y) {
        SCORE_CORNER as int
    } else if is_border(x, y) {
        SCORE_BORDER as int
    } else {
        SCORE_INSIDE as int
    }
}

/// A score on the scale on which Black counts up and White counts down.
pub open spec fn signed_for(player: Player, score: int) -> int {
    match player {
        Player::Black => score,
        Player::White => -score,
    }
}

/// What the `i`-th cell adds to the score of the position.
pub open spec fn weight_at(g: Grid, i: int) -> int {
    match g[i] {
        Some(player) => signed_for(player, cell_weight(i % 8, i / 8)),
        None => 0,
    }
}

/// The score of the pieces on the first `n` cells.
pub open spec fn positional_score(g: Grid, n: int) -> int
    decreases n,
{
    if n <= 0 {
        0
    } else {
        positional_score(g, n - 1) + weight_at(g, n - 1)
    }
}

/// The evaluation of the position `g` after `last_player` has moved.
/// A finished game is worth the maximum to its winner and nothing in a
/// draw. Any other position is worth the score of its pieces, and a bonus
/// to `last_player` where his opponent cannot move.
pub open spec fn evaluation(g: Grid, last_player: Player) -> int {
    let status = status_of(g);
    if status.game_over() {
        match status.winner() {
            Some(winner) => signed_for(winner, SCORE_MAX as int),
            None => SCORE_DRAW as int,
        }
    } else {
        positional_score(g, 64) + if !status.can_player_move(last_player.other()) {
            signed_for(last_player, SCORE_OPPONENT_BLOCKED as int)
        } else {
            0
        }
    }
}

/// The pieces on the first `n` cells are worth at most a corner each.
pub proof fn lemma_positional_score_bound(g: Grid, n: int)
    requires
        0 <= n,
    ensures
        -8 * n <= positional_score(g, n) <= 8 * n,
    decreases n,
{
    if n > 0 {
        lemma_positional_score_bound(g, n - 1);
    }
}

/// An evaluation lies between the two decisive scores.
pub proof fn lemma_evaluation_bound(g: Grid, last_player: Player)
    ensures
        -SCORE_MAX <= evaluation(g, last_player) <= SCORE_MAX,
{
    lemma_positional_score_bound(g, 64);
}

/// Evaluator is responsible for the evaluation of the state of a game.
/// No instance is needed, all methods are statics.
pub struct Evaluator;

impl Evaluator {
    /// Returns an evaluation for the given board, when the last move was done
    /// by the given player.
    /// If the evaluation is ...
    /// * positive : Black player is stronger.
    /// * negative : White player is stronger.
    pub fn evaluate(board: &Board, last_player: Player) -> (r: i32)
        ensures
            r == evaluation(board@, last_player),
    {
        let status = GameStatus::evaluate_board(board);
        if status.game_over() {
            return match status.winner() {
                Some(winner) => Self::sign_for_player(winner, SCORE_MAX),
                None => SCORE_DRAW,
            };
        }
        let mut corner: i32 = 0;
        let mut border: i32 = 0;
        let mut other: i32 = 0;
        let mut cells = board.iter();
        loop
            invariant
                cells.board() == *board,
                0 <= cells.index() <= 64,
                corner + border + other == positional_score(board@, cells.index()),
                -8 * cells.index() <= corner <= 8 * cells.index(),
                -8 * cells.index() <= border <= 8 * cells.index(),
                -8 * cells.index() <= other <= 8 * cells.index(),
            ensures
                cells.index() == 64,
            decreases 64 - cells.index(),
        {
            match cells.next() {
                None => {
                    break ;
                },
                Some((x, y, piece)) => {
                    if let Some(player) = piece {
                        if Self::corner(x, y) {
                            corner += Self::sign_for_player(player, SCORE_CORNER);
                        } else if Self::border(x, y) {
                            border += Self::sign_for_player(player, SCORE_BORDER);
                        } else {
                            other += Self::sign_for_player(player, SCORE_INSIDE);
                        }
                    }
                },
            }
        }
        let mut evaluation = corner + border + other;
        if !status.can_player_move(last_player.opponent()) {
            evaluation += Self::sign_for_player(last_player, SCORE_OPPONENT_BLOCKED);
        }
        evaluation
    }

    /// Change the sign if the given evaluation (or intermediate one) if the
    /// player is White.
    pub(crate) fn sign_for_player(player: Player, evaluation: i32) -> (r: i32)
        requires
            evaluation > i32::MIN,
        ensures
            r == signed_for(player, evaluation as int),
    {
        match player {
            Player::Black => evaluation,
            Player::White => -evaluation,
        }
    }

    fn corner(x: u8, y: u8) -> (r: bool)
        ensures
            r == is_corner(x as int, y as int),
    {
        (x == 0 || x == 7) && (y == 0 || y == 7)
    }

    fn border(x: u8, y: u8) -> (r: bool)
        ensures
            r == is_border(x as int, y as int),
    {
        x == 0 || x == 7 || y == 0 || y == 7
    }
}

} // verus!
