//! The turn-taking state machine of a game.

use vstd::prelude::*;
use crate::board::Board;
use crate::error::GameError;
use crate::game_status::{GameStatus, StatusView, status_of};
use crate::player::Player;
use crate::rules::{
    Grid, can_move, is_grid, is_legal_move, lemma_move_adds_one_piece, lemma_start_position,
    move_outcome, next_to_move, on_board, pieces, start_grid,
};

verus! {

/// What a [`Game`] stands for: the position, who is to move (nobody once the
/// game is over), and whether the opponent of the last mover had to pass.
pub struct GameView {
    pub board: Grid,
    pub player: Option<Player>,
    pub opponent_is_blocked: bool,
}

/// Who moves after `mover` has played and left the position `g`, and whether
/// the opponent was skipped. The game is over where neither side can move;
/// the flag then stays as it was. Otherwise the turn passes to the opponent
/// if he can move, and stays with the mover if he cannot.
pub open spec fn turn_after(g: Grid, mover: Player, was_blocked: bool) -> (Option<Player>, bool) {
    match next_to_move(g, mover) {
        None => (None, was_blocked),
        Some(next) => (Some(next), next == mover),
    }
}

impl GameView {
    /// The status of the position.
    pub open spec fn status(self) -> StatusView {
        status_of(self.board)
    }

    /// What holds of every game: somebody is to move exactly as long as the
    /// game is not over, the player to move has a legal move, and where the
    /// flag is set his opponent has none.
    pub open spec fn valid(self) -> bool {
        &&& is_grid(self.board)
        &&& self.player is None <==> self.status().game_over()
        &&& self.player matches Some(p) ==> can_move(self.board, p)
        &&& self.opponent_is_blocked ==> (self.player matches Some(p) ==> !can_move(
            self.board,
            p.other(),
        ))
    }

    /// A game that is taken up at the position `g` with `next` due to move,
    /// as if his opponent had just played.
    pub open spec fn resumed(g: Grid, next: Player) -> GameView {
        GameView {
            board: g,
            player: turn_after(g, next.other(), false).0,
            opponent_is_blocked: turn_after(g, next.other(), false).1,
        }
    }

    /// What a request of `requested` to move at `(x, y)` leads to: the next
    /// state, or the reason why the move is refused. The checks come in this
    /// order: the game is over, it is the other player's turn, the
    /// coordinates name no cell, the move is illegal.
    pub open spec fn play_result(self, requested: Player, x: u8, y: u8) -> Result<
        GameView,
        GameError,
    > {
        match self.player {
            None => Err(GameError::GameOver),
            Some(expected) => if expected != requested {
                Err(GameError::WrongTurn { expected, requested })
            } else if !on_board(x as int, y as int) {
                Err(GameError::CoordinatesOutOfRange { x, y })
            } else {
                match move_outcome(self.board, requested, x as int, y as int) {
                    None => Err(GameError::IllegalMove),
                    Some(board) => Ok(
                        GameView {
                            board,
                            player: turn_after(board, requested, self.opponent_is_blocked).0,
                            opponent_is_blocked: turn_after(
                                board,
                                requested,
                                self.opponent_is_blocked,
                            ).1,
                        },
                    ),
                }
            },
        }
    }
}

/// Whatever the position and the mover, the turn that follows is sound: it
/// names a player who can move, or nobody where the game is over.
pub proof fn lemma_turn_after(g: Grid, mover: Player, was_blocked: bool)
    requires
        is_grid(g),
    ensures
        (GameView {
            board: g,
            player: turn_after(g, mover, was_blocked).0,
            opponent_is_blocked: turn_after(g, mover, was_blocked).1,
        }).valid(),
{
}

/// An accepted move leads from a game to a game, is made by the player whose
/// turn it was, is legal on the board, and adds exactly one piece to it.
pub proof fn lemma_accepted_move(before: GameView, requested: Player, x: u8, y: u8)
    requires
        is_grid(before.board),
        before.play_result(requested, x, y) is Ok,
    ensures
        before.player == Some(requested),
        is_legal_move(before.board, requested, x as int, y as int),
        before.play_result(requested, x, y)->Ok_0.valid(),
        before.play_result(requested, x, y)->Ok_0.status().black_pieces + before.play_result(
            requested,
            x,
            y,
        )->Ok_0.status().white_pieces == before.status().black_pieces
            + before.status().white_pieces + 1,
{
    lemma_move_adds_one_piece(before.board, requested, x as int, y as int);
    let after = before.play_result(requested, x, y)->Ok_0;
    lemma_turn_after(after.board, requested, before.opponent_is_blocked);
}

/// Manage an Othello game workflow
pub struct Game {
    board: Board,
    player: Option<Player>,
    opponent_is_blocked: bool,
    status: GameStatus,
}

impl View for Game {
    type V = GameView;

    closed spec fn view(&self) -> GameView {
        GameView {
            board: self.board@,
            player: self.player,
            opponent_is_blocked: self.opponent_is_blocked,
        }
    }
}

impl Game {
    #[verifier::type_invariant]
    spec fn inv(self) -> bool {
        self.status@ == status_of(self.board@) && self@.valid()
    }

    /// Create a new standard game
    pub fn new() -> (r: Game)
        ensures
            r@ == (GameView {
                board: start_grid(),
                player: Some(Player::Black),
                opponent_is_blocked: false,
            }),
            r@.valid(),
    {
        let board = Board::new_start();
        let status = GameStatus::evaluate_board(&board);
        proof {
            lemma_start_position();
        }
        Game { board, player: Some(Player::Black), opponent_is_blocked: false, status }
    }

    /// Takes a game up at a given position with `next` due to move. Where
    /// `next` cannot move the turn passes to his opponent, and where neither
    /// can the game is over.
    pub fn from_position(board: Board, next: Player) -> (r: Game)
        ensures
            r@ == GameView::resumed(board@, next),
            r@.valid(),
    {
        let status = GameStatus::evaluate_board(&board);
        let (player, opponent_is_blocked) = Self::update_player(&status, next.opponent(), false);
        proof {
            board.lemma_is_grid();
            lemma_turn_after(board@, next.other(), false);
        }
        Game { board, player, opponent_is_blocked, status }
    }

    /// The current position.
    pub fn board(&self) -> (r: &Board)
        ensures
            r@ == self@.board,
    {
        &self.board
    }

    /// Plays at the given position for the given player, if it is his turn
    /// and the move is legal. A refused move leaves the game as it was.
    pub fn play(&mut self, player: Player, x: u8, y: u8) -> (r: Result<(), GameError>)
        ensures
            old(self)@.valid(),
            final(self)@.valid(),
            match r {
                Ok(()) => old(self)@.play_result(player, x, y) == Ok::<GameView, GameError>(
                    final(self)@,
                ),
                Err(e) => old(self)@.play_result(player, x, y) == Err::<GameView, GameError>(e)
                    && final(self)@ == old(self)@,
            },
    {
        proof {
            use_type_invariant(&*self);
        }
        match self.player {
            None => {
                return Err(GameError::GameOver);
            },
            Some(p) => {
                if p != player {
                    return Err(GameError::WrongTurn { expected: p, requested: player });
                }
            },
        }
        let result = match self.board.play(player, x, y) {
            Ok(result) => result,
            Err(_) => {
                return Err(GameError::CoordinatesOutOfRange { x, y });
            },
        };
        if let Some(new_board) = result {
            let status = GameStatus::evaluate_board(&new_board);
            let (next, blocked) = Self::update_player(&status, player, self.opponent_is_blocked);
            proof {
                new_board.lemma_is_grid();
                lemma_turn_after(new_board@, player, self.opponent_is_blocked);
            }
            *self = Game { board: new_board, player: next, opponent_is_blocked: blocked, status };
            Ok(())
        } else {
            Err(GameError::IllegalMove)
        }
    }

    /// Resolves the turn after `player` has moved: who plays next, and
    /// whether the opponent is skipped.
    fn update_player(status: &GameStatus, player: Player, opponent_is_blocked: bool) -> (r: (
        Option<Player>,
        bool,
    ))
        ensures
            r == turn_for(status@, player, opponent_is_blocked),
    {
        if status.game_over() {
            return (None, opponent_is_blocked);
        }
        // As the game isn't over, at least one player can move, then
        // we don't need to check both cases.

        if status.can_player_move(player.opponent()) {
            (Some(player.opponent()), false)
        } else {
            (Some(player), true)
        }
    }

    /// The player whose turn it is, or nobody once the game is over.
    pub fn player(&self) -> (r: Option<Player>)
        ensures
            r == self@.player,
            self@.valid(),
    {
        proof {
            use_type_invariant(self);
        }
        self.player
    }

    /// Whether the opponent of the player to move was just skipped for want
    /// of a legal move.
    pub fn opponent_is_blocked(&self) -> (r: bool)
        ensures
            r == self@.opponent_is_blocked,
            self@.valid(),
    {
        proof {
            use_type_invariant(self);
        }
        self.opponent_is_blocked
    }

    /// Whether neither side can move.
    pub fn game_over(&self) -> (r: bool)
        ensures
            r == self@.status().game_over(),
            r == (self@.player is None),
    {
        proof {
            use_type_invariant(self);
        }
        self.status.game_over()
    }

    /// The winner of a finished game that is no draw.
    pub fn winner(&self) -> (r: Option<Player>)
        ensures
            r == self@.status().winner(),
    {
        proof {
            use_type_invariant(self);
        }
        self.status.winner()
    }

    /// The numbers of black and of white pieces on the board.
    pub fn count_pieces(&self) -> (r: (u8, u8))
        ensures
            r.0 == pieces(self@.board, Player::Black),
            r.1 == pieces(self@.board, Player::White),
    {
        proof {
            use_type_invariant(self);
        }
        (self.status.pieces_count(Player::Black), self.status.pieces_count(Player::White))
    }
}

/// The turn that follows a move of `mover`, read from a status.
spec fn turn_for(status: StatusView, mover: Player, was_blocked: bool) -> (Option<Player>, bool) {
    if status.game_over() {
        (None, was_blocked)
    } else if status.can_player_move(mover.other()) {
        (Some(mover.other()), false)
    } else {
        (Some(mover), true)
    }
}

} // verus!
