//! The artificial opponents: exhaustive minimax and alpha-beta search.

use vstd::prelude::*;
use crate::board::Board;
use crate::evaluator::{Evaluator, lemma_evaluation_bound, signed_for};
use crate::navigator::GridIterator;
use crate::player::Player;
use crate::rules::{
    can_move, cell_index, empty_cells, is_grid, is_legal_at, is_legal_move, lemma_count_bound,
    lemma_move_adds_one_piece,
};
use crate::search::{
    Candidate, alphabeta_nodes, alphabeta_nodes_below, alphabeta_scan, better, chosen_cell,
    lemma_alphabeta_agrees_with_minimax, lemma_alphabeta_bound, lemma_alphabeta_cut_is_final,
    lemma_alphabeta_value_bound, lemma_minimax_bound, lemma_minimax_finds_a_move,
    lemma_minimax_value_bound, minimax_best, minimax_nodes, minimax_nodes_below, saturated,
};

verus! {

/// The VirtualPlayer trait standardize the public interface of algorithms to
/// find moves (virtual player, move suggestion, ...).
pub trait VirtualPlayer {
    /// The number of moves explored since the player was made.
    spec fn explored(&self) -> nat;

    /// Returns the 'best move' the given board and player: a legal move, or
    /// nothing where the player has none. The count of explored moves never
    /// goes down.
    fn compute_move(&mut self, board: &Board, me: Player) -> (r: Option<(u8, u8)>)
        ensures
            r is None <==> !can_move(board@, me),
            r matches Some(cell) ==> is_legal_move(board@, me, cell.0 as int, cell.1 as int),
            final(self).explored() >= old(self).explored(),
    ;

    /// Returns the total count of move while exploring tree game.
    fn move_count(&self) -> (r: u32)
        ensures
            r == self.explored(),
    ;
}

/// BestMove is in internal structure to returns best move found during
/// game tree exploration.
struct BestMove {
    x: u8,
    y: u8,
    evaluation: i32,
}

impl View for BestMove {
    type V = Candidate;

    closed spec fn view(&self) -> Candidate {
        Candidate { x: self.x as int, y: self.y as int, evaluation: self.evaluation as int }
    }
}

/// The candidate that an optional best move stands for.
spec fn found(best: Option<BestMove>) -> Option<Candidate> {
    match best {
        None => None,
        Some(best_move) => Some(best_move@),
    }
}

impl BestMove {
    /// Choose the best move between the two given, for the given player.
    fn best_move_for_player(
        current_player: Player,
        move_a: Option<BestMove>,
        move_b: Option<BestMove>,
    ) -> (r: Option<BestMove>)
        requires
            move_a matches Some(a) ==> a.evaluation > i32::MIN,
            move_b matches Some(b) ==> b.evaluation > i32::MIN,
        ensures
            found(r) == better(current_player, found(move_a), found(move_b)),
    {
        let (a, b) = match (move_a, move_b) {
            (None, move_b) => {
                return move_b;
            },
            (move_a, None) => {
                return move_a;
            },
            (Some(a), Some(b)) => (a, b),
        };
        let eval_a = a.normalized_evaluation(current_player);
        let eval_b = b.normalized_evaluation(current_player);
        if eval_a >= eval_b {
            Some(a)
        } else {
            Some(b)
        }
    }

    /// Returns an evaluation, normalized to be 'greater is better' for the player.
    fn normalized_evaluation(&self, player: Player) -> (r: i32)
        requires
            self.evaluation > i32::MIN,
        ensures
            r == signed_for(player, self.evaluation as int),
    {
        Evaluator::sign_for_player(player, self.evaluation)
    }
}

/// Implementation of the MiniMax algorithm.
pub struct Minimax {
    depth: u8,
    move_count: u32,
}

impl Minimax {
    /// The ply at which the search evaluates instead of going deeper.
    pub closed spec fn depth_limit(&self) -> int {
        self.depth as int
    }

    /// Creates a new MiniMax with, fixing its exploration depth.
    pub fn new(depth: u8) -> (r: Self)
        ensures
            r.depth_limit() == depth,
            r.explored() == 0,
    {
        Self { depth, move_count: 0 }
    }

    /// Minimax implementation.
    fn inner_compute_move(&mut self, board: &Board, current_player: Player, depth: u8) -> (r:
        Option<BestMove>)
        requires
            depth + empty_cells(board@) <= 65,
        ensures
            final(self).depth_limit() == old(self).depth_limit(),
            found(r) == minimax_best(
                board@,
                current_player,
                depth as int,
                old(self).depth_limit(),
                64,
            ),
            final(self).explored() == saturated(
                old(self).explored() + minimax_nodes(
                    board@,
                    current_player,
                    depth as int,
                    old(self).depth_limit(),
                    64,
                ),
            ),
        decreases empty_cells(board@),
    {
        let ghost g = board@;
        let ghost limit = self.depth as int;
        let ghost start = self.move_count as nat;
        proof {
            board.lemma_is_grid();
        }
        let mut best_move: Option<BestMove> = None;
        let mut cells = GridIterator::new();
        loop
            invariant
                g == board@,
                is_grid(g),
                limit == self.depth,
                depth + empty_cells(g) <= 65,
                0 <= cells@ <= 64,
                found(best_move) == minimax_best(g, current_player, depth as int, limit, cells@ as nat),
                self.move_count == saturated(
                    start + minimax_nodes(g, current_player, depth as int, limit, cells@ as nat),
                ),
            ensures
                cells@ == 64,
            decreases 64 - cells@,
        {
            let ghost i = cells@;
            let (x, y) = match cells.next() {
                None => {
                    break ;
                },
                Some(position) => position,
            };
            proof {
                lemma_minimax_bound(g, current_player, depth as int, limit, i as nat);
            }
            let opt_board_after_move = match board.play(current_player, x, y) {
                Ok(outcome) => outcome,
                Err(_) => None,
            };
            // is the move valid ?
            if let Some(board_after_move) = opt_board_after_move {
                self.move_count = self.move_count.saturating_add(1);
                proof {
                    lemma_move_adds_one_piece(g, current_player, x as int, y as int);
                    lemma_minimax_value_bound(g, current_player, i, depth as int, limit);
                    lemma_evaluation_bound(board_after_move@, current_player);
                }
                let evaluation = if depth == self.depth {
                    // max depth, just evaluate and returns
                    Evaluator::evaluate(&board_after_move, current_player)
                } else {
                    // determine the next player, and check if the game is blocked.
                    let next_player = if board_after_move.can_player_move(
                        current_player.opponent(),
                    ) {
                        // the player changes.
                        Some(current_player.opponent())
                    } else if board_after_move.can_player_move(current_player) {
                        // the game is not blocked, but the player does not change.
                        Some(current_player)
                    } else {
                        // the game is blocked.
                        None
                    };
                    match next_player {
                        None => Evaluator::evaluate(&board_after_move, current_player),
                        Some(next_player) => {
                            let inner_best_move = self.inner_compute_move(
                                &board_after_move,
                                next_player,
                                depth + 1,
                            );
                            inner_best_move.unwrap().evaluation
                        },
                    }
                };
                // this move and what was explored below it are counted
                assert(minimax_nodes(g, current_player, depth as int, limit, (i + 1) as nat)
                    == minimax_nodes(g, current_player, depth as int, limit, i as nat) + 1
                    + minimax_nodes_below(g, current_player, i, depth as int, limit));
                best_move =
                BestMove::best_move_for_player(
                    current_player,
                    best_move,
                    Some(BestMove { x, y, evaluation }),
                );
            }
        }
        best_move
    }
}

impl VirtualPlayer for Minimax {
    closed spec fn explored(&self) -> nat {
        self.move_count as nat
    }

    fn move_count(&self) -> (r: u32) {
        self.move_count
    }

    /// The move that exhaustive search to the depth limit finds best, the
    /// first in row-major order among equals.
    fn compute_move(&mut self, board: &Board, me: Player) -> (r: Option<(u8, u8)>)
        ensures
            final(self).depth_limit() == old(self).depth_limit(),
            r == chosen_cell(minimax_best(board@, me, 1, old(self).depth_limit(), 64)),
            final(self).explored() == saturated(
                old(self).explored() + minimax_nodes(board@, me, 1, old(self).depth_limit(), 64),
            ),
    {
        proof {
            board.lemma_is_grid();
            lemma_count_bound(board@, 64);
            lemma_minimax_finds_a_move(board@, me, 1, self.depth_limit());
        }
        let best_move = self.inner_compute_move(board, me, 1);
        match best_move {
            Some(move_found) => Some((move_found.x, move_found.y)),
            None => None,
        }
    }
}

/// Implementation of the Alpha-Beta algorithm.
pub struct AlphaBeta {
    depth: u8,
    move_count: u32,
}

impl AlphaBeta {
    /// The ply at which the search evaluates instead of going deeper.
    pub closed spec fn depth_limit(&self) -> int {
        self.depth as int
    }

    /// Creates a new AlphaBeta with, fixing its exploration depth.
    pub fn new(depth: u8) -> (r: Self)
        ensures
            r.depth_limit() == depth,
            r.explored() == 0,
    {
        Self { depth, move_count: 0 }
    }

    /// Alpha-Beta implementation. Every reply is searched with the window
    /// that this node was given; the node is left as soon as, after a move
    /// below which the search went deeper, its best move lies outside that
    /// window.
    fn inner_compute_move(
        &mut self,
        board: &Board,
        current_player: Player,
        depth: u8,
        alpha: i32,
        beta: i32,
    ) -> (r: Option<BestMove>)
        requires
            depth + empty_cells(board@) <= 65,
        ensures
            final(self).depth_limit() == old(self).depth_limit(),
            found(r) == alphabeta_scan(
                board@,
                current_player,
                depth as int,
                old(self).depth_limit(),
                alpha as int,
                beta as int,
                64,
            ).best,
            final(self).explored() == saturated(
                old(self).explored() + alphabeta_nodes(
                    board@,
                    current_player,
                    depth as int,
                    old(self).depth_limit(),
                    alpha as int,
                    beta as int,
                    64,
                ),
            ),
        decreases empty_cells(board@),
    {
        let ghost g = board@;
        let ghost limit = self.depth as int;
        let ghost start = self.move_count as nat;
        proof {
            board.lemma_is_grid();
        }
        let mut best_move: Option<BestMove> = None;
        let mut cells = GridIterator::new();
        loop
            invariant
                g == board@,
                is_grid(g),
                limit == self.depth,
                limit == old(self).depth_limit(),
                start == old(self).explored(),
                depth + empty_cells(g) <= 65,
                0 <= cells@ <= 64,
                !alphabeta_scan(
                    g,
                    current_player,
                    depth as int,
                    limit,
                    alpha as int,
                    beta as int,
                    cells@ as nat,
                ).cut,
                found(best_move) == alphabeta_scan(
                    g,
                    current_player,
                    depth as int,
                    limit,
                    alpha as int,
                    beta as int,
                    cells@ as nat,
                ).best,
                self.move_count == saturated(
                    start + alphabeta_nodes(
                        g,
                        current_player,
                        depth as int,
                        limit,
                        alpha as int,
                        beta as int,
                        cells@ as nat,
                    ),
                ),
            ensures
                cells@ == 64,
            decreases 64 - cells@,
        {
            let ghost i = cells@;
            let (x, y) = match cells.next() {
                None => {
                    break ;
                },
                Some(position) => position,
            };
            proof {
                lemma_alphabeta_bound(
                    g,
                    current_player,
                    depth as int,
                    limit,
                    alpha as int,
                    beta as int,
                    i as nat,
                );
            }
            let opt_board_after_move = match board.play(current_player, x, y) {
                Ok(outcome) => outcome,
                Err(_) => None,
            };
            // is the move valid ?
            if let Some(board_after_move) = opt_board_after_move {
                self.move_count = self.move_count.saturating_add(1);
                proof {
                    lemma_move_adds_one_piece(g, current_player, x as int, y as int);
                    lemma_alphabeta_value_bound(
                        g,
                        current_player,
                        i,
                        depth as int,
                        limit,
                        alpha as int,
                        beta as int,
                    );
                    lemma_evaluation_bound(board_after_move@, current_player);
                }
                let ghost counted = self.move_count as nat;
                // determine the next player, and check if the game is blocked.
                let next_player = if depth == self.depth {
                    // max depth, just evaluate
                    None
                } else if board_after_move.can_player_move(current_player.opponent()) {
                    // the player changes.
                    Some(current_player.opponent())
                } else if board_after_move.can_player_move(current_player) {
                    // the game is not blocked, but the player does not change.
                    Some(current_player)
                } else {
                    // the game is blocked.
                    None
                };
                match next_player {
                    None => {
                        // nothing is explored below this move
                        assert(alphabeta_nodes_below(
                            g,
                            current_player,
                            i,
                            depth as int,
                            limit,
                            alpha as int,
                            beta as int,
                        ) == 0);
                        let evaluation = Evaluator::evaluate(&board_after_move, current_player);
                        best_move =
                        BestMove::best_move_for_player(
                            current_player,
                            best_move,
                            Some(BestMove { x, y, evaluation }),
                        );
                    },
                    Some(next_player) => {
                        let inner_best_move = self.inner_compute_move(
                            &board_after_move,
                            next_player,
                            depth + 1,
                            alpha,
                            beta,
                        );
                        // this move and what was explored below it are counted
                        assert(self.move_count == saturated(
                            counted + alphabeta_nodes_below(
                                g,
                                current_player,
                                i,
                                depth as int,
                                limit,
                                alpha as int,
                                beta as int,
                            ),
                        ));
                        let evaluation = inner_best_move.unwrap().evaluation;
                        best_move =
                        BestMove::best_move_for_player(
                            current_player,
                            best_move,
                            Some(BestMove { x, y, evaluation }),
                        );
                        let best_eval = match &best_move {
                            Some(best) => best.evaluation,
                            None => evaluation,
                        };
                        let cut = if current_player == Player::Black {
                            // beta cut
                            best_eval >= beta
                        } else {
                            // alpha cut
                            best_eval <= alpha
                        };
                        if cut {
                            proof {
                                lemma_alphabeta_cut_is_final(
                                    g,
                                    current_player,
                                    depth as int,
                                    limit,
                                    alpha as int,
                                    beta as int,
                                    (i + 1) as nat,
                                    64,
                                );
                            }
                            return best_move;
                        }
                    },
                }
            }
        }
        best_move
    }
}

impl VirtualPlayer for AlphaBeta {
    closed spec fn explored(&self) -> nat {
        self.move_count as nat
    }

    fn move_count(&self) -> (r: u32) {
        self.move_count
    }

    /// The move that the pruned search with the full window finds. It is
    /// the move of exhaustive search to the same depth limit, found with no
    /// more moves explored.
    fn compute_move(&mut self, board: &Board, me: Player) -> (r: Option<(u8, u8)>)
        ensures
            final(self).depth_limit() == old(self).depth_limit(),
            r == chosen_cell(
                alphabeta_scan(
                    board@,
                    me,
                    1,
                    old(self).depth_limit(),
                    i32::MIN as int,
                    i32::MAX as int,
                    64,
                ).best,
            ),
            r == chosen_cell(minimax_best(board@, me, 1, old(self).depth_limit(), 64)),
            final(self).explored() == saturated(
                old(self).explored() + alphabeta_nodes(
                    board@,
                    me,
                    1,
                    old(self).depth_limit(),
                    i32::MIN as int,
                    i32::MAX as int,
                    64,
                ),
            ),
            final(self).explored() <= saturated(
                old(self).explored() + minimax_nodes(board@, me, 1, old(self).depth_limit(), 64),
            ),
    {
        proof {
            board.lemma_is_grid();
            lemma_count_bound(board@, 64);
            lemma_minimax_finds_a_move(board@, me, 1, self.depth_limit());
            lemma_alphabeta_agrees_with_minimax(board@, me, self.depth_limit());
        }
        let best_move = self.inner_compute_move(board, me, 1, i32::MIN, i32::MAX);
        match best_move {
            Some(move_found) => Some((move_found.x, move_found.y)),
            None => None,
        }
    }
}

} // verus!
