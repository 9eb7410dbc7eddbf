//! What the two search strategies compute, stated over grids.
//!
//! A node of the game tree is a position with a player to move at a ply
//! `depth`, counted from 1 at the root; `limit` is the ply at which the
//! search evaluates instead of going deeper. The cells are examined in
//! row-major order, and the functions below describe the state of a node
//! after its first `k` cells.

use vstd::prelude::*;
use crate::evaluator::{SCORE_MAX, evaluation, lemma_evaluation_bound, signed_for};
use crate::player::Player;
use crate::rules::{
    Grid, after_move, can_move, cell_index, empty_cells, is_grid, is_legal_at, is_legal_move,
    lemma_move_adds_one_piece, next_to_move, on_board,
};

verus! {

/// A move together with the evaluation that the search gives it.
pub struct Candidate {
    pub x: int,
    pub y: int,
    pub evaluation: int,
}

/// The move at the `i`-th cell in row-major order, with its evaluation.
pub open spec fn candidate_at(i: int, evaluation: int) -> Candidate {
    Candidate { x: i % 8, y: i / 8, evaluation }
}

/// The better of two candidates for `player`: the greater evaluation for
/// Black, the smaller for White. Between equals the first one stays.
pub open spec fn better(player: Player, a: Option<Candidate>, b: Option<Candidate>) -> Option<
    Candidate,
> {
    match (a, b) {
        (None, _) => b,
        (_, None) => a,
        (Some(first), Some(second)) => if signed_for(player, first.evaluation) >= signed_for(
            player,
            second.evaluation,
        ) {
            a
        } else {
            b
        },
    }
}

/// The search goes one ply deeper after the move at the `i`-th cell: the
/// depth limit is not reached and somebody can move in the position that
/// the move leaves.
pub open spec fn goes_deeper(g: Grid, player: Player, i: int, depth: int, limit: int) -> bool {
    depth != limit && next_to_move(after_move(g, player, i % 8, i / 8), player) is Some
}

/// The evaluation that exhaustive search gives to the move of `player` at
/// the `i`-th cell: that of the position it leaves where the search does
/// not go deeper, else that of the best reply.
pub open spec fn minimax_value(g: Grid, player: Player, i: int, depth: int, limit: int) -> int
    decreases empty_cells(g), 0nat,
    when is_grid(g) && is_legal_at(g, player, i)
    via minimax_value_decreases
{
    let after = after_move(g, player, i % 8, i / 8);
    if goes_deeper(g, player, i, depth, limit) {
        minimax_best(after, next_to_move(after, player).unwrap(), depth + 1, limit, 64).unwrap().evaluation
    } else {
        evaluation(after, player)
    }
}

/// The best move of `player` among the first `k` cells according to
/// exhaustive search, or nothing where none of them is a legal move.
pub open spec fn minimax_best(g: Grid, player: Player, depth: int, limit: int, k: nat) -> Option<
    Candidate,
>
    decreases empty_cells(g), k,
{
    if k == 0 {
        None
    } else {
        let sofar = minimax_best(g, player, depth, limit, (k - 1) as nat);
        if is_legal_at(g, player, k - 1) {
            better(
                player,
                sofar,
                Some(candidate_at(k - 1, minimax_value(g, player, k - 1, depth, limit))),
            )
        } else {
            sofar
        }
    }
}

#[via_fn]
proof fn minimax_value_decreases(g: Grid, player: Player, i: int, depth: int, limit: int) {
    lemma_move_adds_one_piece(g, player, i % 8, i / 8);
}

/// The number of moves that exhaustive search explores below the move at
/// the `i`-th cell.
pub open spec fn minimax_nodes_below(g: Grid, player: Player, i: int, depth: int, limit: int) -> nat
    decreases empty_cells(g), 0nat,
    when is_grid(g) && is_legal_at(g, player, i)
    via minimax_nodes_below_decreases
{
    let after = after_move(g, player, i % 8, i / 8);
    if goes_deeper(g, player, i, depth, limit) {
        minimax_nodes(after, next_to_move(after, player).unwrap(), depth + 1, limit, 64)
    } else {
        0
    }
}

/// The number of moves that exhaustive search explores while it examines
/// the first `k` cells of a node: the legal moves among them and all that
/// lies below these.
pub open spec fn minimax_nodes(g: Grid, player: Player, depth: int, limit: int, k: nat) -> nat
    decreases empty_cells(g), k,
{
    if k == 0 {
        0
    } else {
        minimax_nodes(g, player, depth, limit, (k - 1) as nat) + if is_legal_at(g, player, k - 1) {
            1 + minimax_nodes_below(g, player, k - 1, depth, limit)
        } else {
            0
        }
    }
}

#[via_fn]
proof fn minimax_nodes_below_decreases(g: Grid, player: Player, i: int, depth: int, limit: int) {
    lemma_move_adds_one_piece(g, player, i % 8, i / 8);
}

/// A node of the pruned search after some of its cells: the best move found
/// so far, and whether the search has left the node by a cutoff.
pub struct Scan {
    pub best: Option<Candidate>,
    pub cut: bool,
}

/// The best move found so far lies outside the window `(alpha, beta)` on
/// the side of `player`: at `beta` or above for Black, at `alpha` or below
/// for White.
pub open spec fn is_cutoff(player: Player, best: Option<Candidate>, alpha: int, beta: int) -> bool {
    match best {
        None => false,
        Some(candidate) => match player {
            Player::Black => candidate.evaluation >= beta,
            Player::White => candidate.evaluation <= alpha,
        },
    }
}

/// The evaluation that the pruned search gives to the move of `player` at
/// the `i`-th cell. The reply is searched with the window of this node.
pub open spec fn alphabeta_value(
    g: Grid,
    player: Player,
    i: int,
    depth: int,
    limit: int,
    alpha: int,
    beta: int,
) -> int
    decreases empty_cells(g), 0nat,
    when is_grid(g) && is_legal_at(g, player, i)
    via alphabeta_value_decreases
{
    let after = after_move(g, player, i % 8, i / 8);
    if goes_deeper(g, player, i, depth, limit) {
        alphabeta_scan(
            after,
            next_to_move(after, player).unwrap(),
            depth + 1,
            limit,
            alpha,
            beta,
            64,
        ).best.unwrap().evaluation
    } else {
        evaluation(after, player)
    }
}

/// The pruned search after the first `k` cells of a node. A legal move is
/// folded into the best so far; after a move below which the search went
/// deeper, the node is cut where the best so far lies outside the window.
/// A node that is cut looks at no further cell.
pub open spec fn alphabeta_scan(
    g: Grid,
    player: Player,
    depth: int,
    limit: int,
    alpha: int,
    beta: int,
    k: nat,
) -> Scan
    decreases empty_cells(g), k,
{
    if k == 0 {
        Scan { best: None, cut: false }
    } else {
        let sofar = alphabeta_scan(g, player, depth, limit, alpha, beta, (k - 1) as nat);
        if sofar.cut || !is_legal_at(g, player, k - 1) {
            sofar
        } else {
            let best = better(
                player,
                sofar.best,
                Some(
                    candidate_at(
                        k - 1,
                        alphabeta_value(g, player, k - 1, depth, limit, alpha, beta),
                    ),
                ),
            );
            Scan {
                best,
                cut: goes_deeper(g, player, k - 1, depth, limit) && is_cutoff(
                    player,
                    best,
                    alpha,
                    beta,
                ),
            }
        }
    }
}

#[via_fn]
proof fn alphabeta_value_decreases(
    g: Grid,
    player: Player,
    i: int,
    depth: int,
    limit: int,
    alpha: int,
    beta: int,
) {
    lemma_move_adds_one_piece(g, player, i % 8, i / 8);
}

/// The number of moves that the pruned search explores below the move at
/// the `i`-th cell.
pub open spec fn alphabeta_nodes_below(
    g: Grid,
    player: Player,
    i: int,
    depth: int,
    limit: int,
    alpha: int,
    beta: int,
) -> nat
    decreases empty_cells(g), 0nat,
    when is_grid(g) && is_legal_at(g, player, i)
    via alphabeta_nodes_below_decreases
{
    let after = after_move(g, player, i % 8, i / 8);
    if goes_deeper(g, player, i, depth, limit) {
        alphabeta_nodes(
            after,
            next_to_move(after, player).unwrap(),
            depth + 1,
            limit,
            alpha,
            beta,
            64,
        )
    } else {
        0
    }
}

/// The number of moves that the pruned search explores while it examines
/// the first `k` cells of a node.
pub open spec fn alphabeta_nodes(
    g: Grid,
    player: Player,
    depth: int,
    limit: int,
    alpha: int,
    beta: int,
    k: nat,
) -> nat
    decreases empty_cells(g), k,
{
    if k == 0 {
        0
    } else {
        alphabeta_nodes(g, player, depth, limit, alpha, beta, (k - 1) as nat) + if alphabeta_scan(
            g,
            player,
            depth,
            limit,
            alpha,
            beta,
            (k - 1) as nat,
        ).cut || !is_legal_at(g, player, k - 1) {
            0
        } else {
            1 + alphabeta_nodes_below(g, player, k - 1, depth, limit, alpha, beta)
        }
    }
}

#[via_fn]
proof fn alphabeta_nodes_below_decreases(
    g: Grid,
    player: Player,
    i: int,
    depth: int,
    limit: int,
    alpha: int,
    beta: int,
) {
    lemma_move_adds_one_piece(g, player, i % 8, i / 8);
}

/// The cell that a search recommends.
pub open spec fn chosen_cell(best: Option<Candidate>) -> Option<(u8, u8)> {
    match best {
        None => None,
        Some(candidate) => Some((candidate.x as u8, candidate.y as u8)),
    }
}

/// A counter of explored moves that stops at the greatest `u32`.
pub open spec fn saturated(count: nat) -> nat {
    if count > u32::MAX {
        u32::MAX as nat
    } else {
        count
    }
}

/// `candidate` is a legal move among the first `k` cells, it carries the
/// evaluation that exhaustive search gives it, no legal move among these
/// cells is better for `player`, and none that is as good comes before it
/// in row-major order.
pub open spec fn is_first_best(
    g: Grid,
    player: Player,
    depth: int,
    limit: int,
    k: nat,
    candidate: Candidate,
) -> bool {
    let chosen = cell_index(candidate.x, candidate.y);
    &&& on_board(candidate.x, candidate.y)
    &&& chosen < k
    &&& is_legal_at(g, player, chosen)
    &&& candidate.evaluation == minimax_value(g, player, chosen, depth, limit)
    &&& forall|i: int|
        0 <= i < k && is_legal_at(g, player, i) ==> signed_for(
            player,
            #[trigger] minimax_value(g, player, i, depth, limit),
        ) <= signed_for(player, candidate.evaluation)
    &&& forall|i: int|
        0 <= i < chosen && is_legal_at(g, player, i) ==> signed_for(
            player,
            #[trigger] minimax_value(g, player, i, depth, limit),
        ) < signed_for(player, candidate.evaluation)
}

/// The tie-break of the search: what exhaustive search returns is a best
/// move for the player, and among the best moves the first in row-major
/// order. It returns nothing only where no cell is a legal move.
pub proof fn lemma_minimax_picks_first_best(
    g: Grid,
    player: Player,
    depth: int,
    limit: int,
    k: nat,
)
    requires
        is_grid(g),
        k <= 64,
    ensures
        match minimax_best(g, player, depth, limit, k) {
            None => forall|i: int| 0 <= i < k ==> !is_legal_at(g, player, i),
            Some(candidate) => is_first_best(g, player, depth, limit, k, candidate),
        },
    decreases k,
{
    if k > 0 {
        lemma_minimax_picks_first_best(g, player, depth, limit, (k - 1) as nat);
        let i = k - 1;
        if is_legal_at(g, player, i) {
            // the move at the cell `i` is folded into the best of the cells before
            let found = candidate_at(i, minimax_value(g, player, i, depth, limit));
            assert(cell_index(found.x, found.y) == i);
        }
    }
}

/// A search recommends a move exactly where the player can move, and the
/// move that it recommends is legal.
pub proof fn lemma_minimax_finds_a_move(g: Grid, player: Player, depth: int, limit: int)
    requires
        is_grid(g),
    ensures
        minimax_best(g, player, depth, limit, 64) is None <==> !can_move(g, player),
        minimax_best(g, player, depth, limit, 64) matches Some(candidate) ==> on_board(
            candidate.x,
            candidate.y,
        ) && is_legal_move(g, player, candidate.x, candidate.y),
{
    lemma_minimax_picks_first_best(g, player, depth, limit, 64);
    match minimax_best(g, player, depth, limit, 64) {
        None => {
            assert forall|x: int, y: int| !is_legal_move(g, player, x, y) by {
                if on_board(x, y) {
                    assert(!is_legal_at(g, player, cell_index(x, y)));
                }
            }
        },
        Some(candidate) => {
            assert(is_legal_at(g, player, cell_index(candidate.x, candidate.y)));
        },
    }
}

/// The evaluations that exhaustive search hands up lie between the two
/// decisive scores.
pub proof fn lemma_minimax_bound(g: Grid, player: Player, depth: int, limit: int, k: nat)
    requires
        is_grid(g),
        k <= 64,
    ensures
        minimax_best(g, player, depth, limit, k) matches Some(candidate) ==> -SCORE_MAX
            <= candidate.evaluation <= SCORE_MAX,
    decreases empty_cells(g), k,
{
    if k > 0 {
        lemma_minimax_bound(g, player, depth, limit, (k - 1) as nat);
        if is_legal_at(g, player, k - 1) {
            lemma_minimax_value_bound(g, player, k - 1, depth, limit);
        }
    }
}

/// The evaluation of a move lies between the two decisive scores.
pub proof fn lemma_minimax_value_bound(g: Grid, player: Player, i: int, depth: int, limit: int)
    requires
        is_grid(g),
        is_legal_at(g, player, i),
    ensures
        -SCORE_MAX <= minimax_value(g, player, i, depth, limit) <= SCORE_MAX,
        goes_deeper(g, player, i, depth, limit) ==> minimax_best(
            after_move(g, player, i % 8, i / 8),
            next_to_move(after_move(g, player, i % 8, i / 8), player).unwrap(),
            depth + 1,
            limit,
            64,
        ) is Some,
    decreases empty_cells(g), 0nat,
{
    let after = after_move(g, player, i % 8, i / 8);
    lemma_move_adds_one_piece(g, player, i % 8, i / 8);
    if goes_deeper(g, player, i, depth, limit) {
        let next = next_to_move(after, player).unwrap();
        lemma_minimax_finds_a_move(after, next, depth + 1, limit);
        lemma_minimax_bound(after, next, depth + 1, limit, 64);
    } else {
        lemma_evaluation_bound(after, player);
    }
}

/// With the full window the pruned search keeps step with the exhaustive
/// one: after every cell both hold the same best move, and the pruned
/// search has cut the node only where that move is decisive for Black, so
/// that no later cell could replace it.
pub proof fn lemma_alphabeta_keeps_step(g: Grid, player: Player, depth: int, limit: int, k: nat)
    requires
        is_grid(g),
        k <= 64,
    ensures
        alphabeta_scan(g, player, depth, limit, i32::MIN as int, i32::MAX as int, k).best
            == minimax_best(g, player, depth, limit, k),
        alphabeta_scan(g, player, depth, limit, i32::MIN as int, i32::MAX as int, k).cut ==> player
            == Player::Black && minimax_best(g, player, depth, limit, k) is Some && minimax_best(
            g,
            player,
            depth,
            limit,
            k,
        ).unwrap().evaluation == SCORE_MAX,
        alphabeta_nodes(g, player, depth, limit, i32::MIN as int, i32::MAX as int, k)
            <= minimax_nodes(g, player, depth, limit, k),
    decreases empty_cells(g), k,
{
    if k > 0 {
        let i = k - 1;
        lemma_alphabeta_keeps_step(g, player, depth, limit, (k - 1) as nat);
        lemma_minimax_bound(g, player, depth, limit, (k - 1) as nat);
        lemma_minimax_bound(g, player, depth, limit, k);
        if is_legal_at(g, player, i) {
            lemma_minimax_value_bound(g, player, i, depth, limit);
            lemma_alphabeta_value(g, player, i, depth, limit);
        }
    }
}

/// With the full window both searches give a move the same evaluation, and
/// the pruned one explores no more below it.
pub proof fn lemma_alphabeta_value(g: Grid, player: Player, i: int, depth: int, limit: int)
    requires
        is_grid(g),
        is_legal_at(g, player, i),
    ensures
        alphabeta_value(g, player, i, depth, limit, i32::MIN as int, i32::MAX as int)
            == minimax_value(g, player, i, depth, limit),
        alphabeta_nodes_below(g, player, i, depth, limit, i32::MIN as int, i32::MAX as int)
            <= minimax_nodes_below(g, player, i, depth, limit),
    decreases empty_cells(g), 0nat,
{
    let after = after_move(g, player, i % 8, i / 8);
    lemma_move_adds_one_piece(g, player, i % 8, i / 8);
    if goes_deeper(g, player, i, depth, limit) {
        let next = next_to_move(after, player).unwrap();
        lemma_alphabeta_keeps_step(after, next, depth + 1, limit, 64);
    }
}

/// For any depth limit and position the pruned search with the full window
/// finds the move that exhaustive search finds, and explores no more moves
/// on the way.
pub proof fn lemma_alphabeta_agrees_with_minimax(g: Grid, player: Player, limit: int)
    requires
        is_grid(g),
    ensures
        alphabeta_scan(g, player, 1, limit, i32::MIN as int, i32::MAX as int, 64).best
            == minimax_best(g, player, 1, limit, 64),
        alphabeta_nodes(g, player, 1, limit, i32::MIN as int, i32::MAX as int, 64)
            <= minimax_nodes(g, player, 1, limit, 64),
        saturated(alphabeta_nodes(g, player, 1, limit, i32::MIN as int, i32::MAX as int, 64))
            <= saturated(minimax_nodes(g, player, 1, limit, 64)),
{
    lemma_alphabeta_keeps_step(g, player, 1, limit, 64);
}

/// The pruned search holds a move as soon as it has met a legal one, and
/// what it hands up lies between the two decisive scores, whatever the
/// window.
pub proof fn lemma_alphabeta_bound(
    g: Grid,
    player: Player,
    depth: int,
    limit: int,
    alpha: int,
    beta: int,
    k: nat,
)
    requires
        is_grid(g),
        k <= 64,
    ensures
        alphabeta_scan(g, player, depth, limit, alpha, beta, k).best is None <==> forall|i: int|
            0 <= i < k ==> !is_legal_at(g, player, i),
        alphabeta_scan(g, player, depth, limit, alpha, beta, k).best is None ==> !alphabeta_scan(
            g,
            player,
            depth,
            limit,
            alpha,
            beta,
            k,
        ).cut,
        alphabeta_scan(g, player, depth, limit, alpha, beta, k).best matches Some(candidate)
            ==> -SCORE_MAX <= candidate.evaluation <= SCORE_MAX,
    decreases empty_cells(g), k,
{
    if k > 0 {
        lemma_alphabeta_bound(g, player, depth, limit, alpha, beta, (k - 1) as nat);
        if is_legal_at(g, player, k - 1) {
            lemma_alphabeta_value_bound(g, player, k - 1, depth, limit, alpha, beta);
        }
    }
}

/// The evaluation that the pruned search gives to a move lies between the
/// two decisive scores, whatever the window.
pub proof fn lemma_alphabeta_value_bound(
    g: Grid,
    player: Player,
    i: int,
    depth: int,
    limit: int,
    alpha: int,
    beta: int,
)
    requires
        is_grid(g),
        is_legal_at(g, player, i),
    ensures
        -SCORE_MAX <= alphabeta_value(g, player, i, depth, limit, alpha, beta) <= SCORE_MAX,
        goes_deeper(g, player, i, depth, limit) ==> alphabeta_scan(
            after_move(g, player, i % 8, i / 8),
            next_to_move(after_move(g, player, i % 8, i / 8), player).unwrap(),
            depth + 1,
            limit,
            alpha,
            beta,
            64,
        ).best is Some,
    decreases empty_cells(g), 0nat,
{
    let after = after_move(g, player, i % 8, i / 8);
    lemma_move_adds_one_piece(g, player, i % 8, i / 8);
    if goes_deeper(g, player, i, depth, limit) {
        let next = next_to_move(after, player).unwrap();
        lemma_alphabeta_bound(after, next, depth + 1, limit, alpha, beta, 64);
        let (x, y) = choose|x: int, y: int| is_legal_move(after, next, x, y);
        assert(is_legal_at(after, next, cell_index(x, y)));
    } else {
        lemma_evaluation_bound(after, player);
    }
}

/// A node that is cut stays as it is: the cells that follow change neither
/// its best move nor the number of moves explored.
pub proof fn lemma_alphabeta_cut_is_final(
    g: Grid,
    player: Player,
    depth: int,
    limit: int,
    alpha: int,
    beta: int,
    k: nat,
    later: nat,
)
    requires
        k <= later,
        alphabeta_scan(g, player, depth, limit, alpha, beta, k).cut,
    ensures
        alphabeta_scan(g, player, depth, limit, alpha, beta, later) == alphabeta_scan(
            g,
            player,
            depth,
            limit,
            alpha,
            beta,
            k,
        ),
        alphabeta_nodes(g, player, depth, limit, alpha, beta, later) == alphabeta_nodes(
            g,
            player,
            depth,
            limit,
            alpha,
            beta,
            k,
        ),
    decreases later,
{
    if later > k {
        lemma_alphabeta_cut_is_final(g, player, depth, limit, alpha, beta, k, (later - 1) as nat);
    }
}

} // verus!
