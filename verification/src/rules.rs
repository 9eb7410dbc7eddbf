//! The rules of Othello, stated over a mathematical model of the board.
//!
//! A grid is the sequence of the 64 cells in row-major order: the cell in
//! column `x` and row `y` has index `y * 8 + x`. Everything here is
//! specification; the executable board refers to it in its contracts.

use vstd::prelude::*;
use crate::player::Player;

verus! {

/// The content of the 64 cells, row by row.
pub type Grid = Seq<Option<Player>>;

/// A grid holds exactly 64 cells.
pub open spec fn is_grid(g: Grid) -> bool {
    g.len() == 64
}

/// Coordinates that name a cell.
pub open spec fn on_board(x: int, y: int) -> bool {
    0 <= x < 8 && 0 <= y < 8
}

/// Position of the cell `(x, y)` in a grid.
pub open spec fn cell_index(x: int, y: int) -> int {
    y * 8 + x
}

/// The content of the cell `(x, y)`; nothing lies outside the board.
pub open spec fn cell(g: Grid, x: int, y: int) -> Option<Player> {
    if on_board(x, y) {
        g[cell_index(x, y)]
    } else {
        None
    }
}

/// One of the eight compass vectors.
pub open spec fn is_direction(dx: int, dy: int) -> bool {
    -1 <= dx <= 1 && -1 <= dy <= 1 && (dx != 0 || dy != 0)
}

/// The eight compass vectors in the order in which a move explores them.
pub open spec fn direction_at(j: int) -> (int, int) {
    if j == 0 {
        (0, -1)
    } else if j == 1 {
        (1, -1)
    } else if j == 2 {
        (1, 0)
    } else if j == 3 {
        (1, 1)
    } else if j == 4 {
        (0, 1)
    } else if j == 5 {
        (-1, 1)
    } else if j == 6 {
        (-1, 0)
    } else {
        (-1, -1)
    }
}

/// The point reached from `(x, y)` after `k` steps along `(dx, dy)`.
pub open spec fn ray_point(x: int, y: int, dx: int, dy: int, k: int) -> (int, int) {
    (x + k * dx, y + k * dy)
}

/// The content of the cell `k` steps away from `(x, y)` along `(dx, dy)`.
pub open spec fn ray(g: Grid, x: int, y: int, dx: int, dy: int, k: int) -> Option<Player> {
    cell(g, x + k * dx, y + k * dy)
}

/// Walking from `(x, y)` along `(dx, dy)`, the first `n - 1` cells belong to
/// the opponent of `player` and the cell at distance `n` belongs to `player`.
pub open spec fn run_closes(
    g: Grid,
    player: Player,
    x: int,
    y: int,
    dx: int,
    dy: int,
    n: int,
) -> bool {
    &&& n >= 2
    &&& ray(g, x, y, dx, dy, n) == Some(player)
    &&& forall|k: int| 1 <= k < n ==> #[trigger] ray(g, x, y, dx, dy, k) == Some(player.other())
}

/// The capture rule for one direction: a move of `player` at `(x, y)` takes
/// at least one piece along `(dx, dy)`.
pub open spec fn captures(g: Grid, player: Player, x: int, y: int, dx: int, dy: int) -> bool {
    exists|n: int| run_closes(g, player, x, y, dx, dy, n)
}

/// The distance from `(x, y)` to the piece of `player` that closes the run
/// along `(dx, dy)`, where that direction captures.
pub open spec fn closing_distance(
    g: Grid,
    player: Player,
    x: int,
    y: int,
    dx: int,
    dy: int,
) -> int {
    choose|n: int| run_closes(g, player, x, y, dx, dy, n)
}

/// The cell `(cx, cy)` lies strictly between `(x, y)` and the piece that
/// closes the run along `(dx, dy)`.
pub open spec fn captured_along(
    g: Grid,
    player: Player,
    x: int,
    y: int,
    dx: int,
    dy: int,
    cx: int,
    cy: int,
) -> bool {
    exists|n: int, k: int|
        #[trigger] run_closes(g, player, x, y, dx, dy, n) && 1 <= k < n
            && #[trigger] ray_point(x, y, dx, dy, k) == (cx, cy)
}

/// A move of `player` at `(x, y)` recolors the cell `(cx, cy)`.
pub open spec fn is_flipped(g: Grid, player: Player, x: int, y: int, cx: int, cy: int) -> bool {
    exists|dx: int, dy: int|
        is_direction(dx, dy) && #[trigger] captured_along(g, player, x, y, dx, dy, cx, cy)
}

/// The move is legal: the cell is empty and some direction captures.
pub open spec fn is_legal_move(g: Grid, player: Player, x: int, y: int) -> bool {
    &&& on_board(x, y)
    &&& cell(g, x, y) is None
    &&& exists|dx: int, dy: int| is_direction(dx, dy) && #[trigger] captures(g, player, x, y, dx, dy)
}

/// The grid after `player` has moved at `(x, y)`: the cell holds the new
/// piece, the captured cells change color, the rest is untouched.
pub open spec fn after_move(g: Grid, player: Player, x: int, y: int) -> Grid {
    Seq::new(
        64,
        |i: int|
            if i == cell_index(x, y) || is_flipped(g, player, x, y, i % 8, i / 8) {
                Some(player)
            } else {
                g[i]
            },
    )
}

/// What a move of `player` at `(x, y)` gives: the new grid, or nothing where
/// the move is illegal.
pub open spec fn move_outcome(g: Grid, player: Player, x: int, y: int) -> Option<Grid> {
    if is_legal_move(g, player, x, y) {
        Some(after_move(g, player, x, y))
    } else {
        None
    }
}

/// The move of `player` at the `i`-th cell in row-major order is legal.
pub open spec fn is_legal_at(g: Grid, player: Player, i: int) -> bool {
    is_legal_move(g, player, i % 8, i / 8)
}

/// `player` has a legal move somewhere on the grid.
pub open spec fn can_move(g: Grid, player: Player) -> bool {
    exists|x: int, y: int| is_legal_move(g, player, x, y)
}

/// Who plays after `mover` has left the position `g`: his opponent if he can
/// move, else `mover` again if he can, else nobody.
pub open spec fn next_to_move(g: Grid, mover: Player) -> Option<Player> {
    if can_move(g, mover.other()) {
        Some(mover.other())
    } else if can_move(g, mover) {
        Some(mover)
    } else {
        None
    }
}

/// The number of pieces of `who` among the first `n` cells.
pub open spec fn count_in(g: Grid, who: Player, n: int) -> nat
    decreases n,
{
    if n <= 0 {
        0
    } else {
        count_in(g, who, n - 1) + if g[n - 1] == Some(who) {
            1nat
        } else {
            0nat
        }
    }
}

/// The number of pieces of `who` on the grid.
pub open spec fn pieces(g: Grid, who: Player) -> nat {
    count_in(g, who, 64)
}

/// The number of empty cells.
pub open spec fn empty_cells(g: Grid) -> nat {
    (64 - pieces(g, Player::Black) - pieces(g, Player::White)) as nat
}

/// The empty board.
pub open spec fn empty_grid() -> Grid {
    Seq::new(64, |i: int| None)
}

/// The standard start position.
pub open spec fn start_grid() -> Grid {
    empty_grid().update(cell_index(3, 3), Some(Player::White)).update(
        cell_index(4, 4),
        Some(Player::White),
    ).update(cell_index(3, 4), Some(Player::Black)).update(cell_index(4, 3), Some(Player::Black))
}

/// `k` steps of a component of a compass vector, without the product.
pub proof fn lemma_unit_steps(d: int, k: int)
    by (nonlinear_arith)
    requires
        -1 <= d <= 1,
    ensures
        k * d == if d == 1 {
            k
        } else if d == -1 {
            -k
        } else {
            0
        },
{
}

/// Every compass vector has its place in the order of exploration, and
/// every place holds a compass vector.
pub proof fn lemma_directions(dx: int, dy: int)
    ensures
        is_direction(dx, dy) <==> exists|j: int| 0 <= j < 8 && #[trigger] direction_at(j) == (dx, dy),
{
    if is_direction(dx, dy) {
        let j: int = if dx == 0 && dy == -1 {
            0
        } else if dx == 1 && dy == -1 {
            1
        } else if dx == 1 && dy == 0 {
            2
        } else if dx == 1 && dy == 1 {
            3
        } else if dx == 0 && dy == 1 {
            4
        } else if dx == -1 && dy == 1 {
            5
        } else if dx == -1 && dy == 0 {
            6
        } else {
            7
        };
        assert(direction_at(j) == (dx, dy));
    }
}

/// A run is closed at one distance at most.
pub proof fn lemma_closing_distance_unique(
    g: Grid,
    player: Player,
    x: int,
    y: int,
    dx: int,
    dy: int,
    n1: int,
    n2: int,
)
    requires
        run_closes(g, player, x, y, dx, dy, n1),
        run_closes(g, player, x, y, dx, dy, n2),
    ensures
        n1 == n2,
{
    // the nearer of two closing pieces would lie inside the other run
    if n1 < n2 {
        assert(ray(g, x, y, dx, dy, n1) == Some(player.other()));
    } else if n2 < n1 {
        assert(ray(g, x, y, dx, dy, n2) == Some(player.other()));
    }
}

/// A closed run stays on the board: its length is at most 7.
pub proof fn lemma_run_is_short(g: Grid, player: Player, x: int, y: int, dx: int, dy: int, n: int)
    requires
        on_board(x, y),
        is_direction(dx, dy),
        run_closes(g, player, x, y, dx, dy, n),
    ensures
        2 <= n <= 7,
        on_board(x + n * dx, y + n * dy),
{
    lemma_unit_steps(dx, n);
    lemma_unit_steps(dy, n);
}

/// A captured cell is on the board, held the opponent's piece, and is not
/// the cell of the move.
pub proof fn lemma_captured_cell(
    g: Grid,
    player: Player,
    x: int,
    y: int,
    cx: int,
    cy: int,
)
    requires
        is_flipped(g, player, x, y, cx, cy),
    ensures
        on_board(cx, cy),
        cell(g, cx, cy) == Some(player.other()),
        on_board(x, y) && cell(g, x, y) is None ==> cell_index(cx, cy) != cell_index(x, y),
{
    let (dx, dy) = choose|dx: int, dy: int|
        is_direction(dx, dy) && #[trigger] captured_along(g, player, x, y, dx, dy, cx, cy);
    let (n, k) = choose|n: int, k: int|
        #[trigger] run_closes(g, player, x, y, dx, dy, n) && 1 <= k < n
            && #[trigger] ray_point(x, y, dx, dy, k) == (cx, cy);
    assert(ray(g, x, y, dx, dy, k) == Some(player.other()));
}

/// Among the first `n` cells there are at most `n` pieces, and exactly `n`
/// only where none of them is empty.
pub proof fn lemma_count_bound(g: Grid, n: int)
    requires
        0 <= n,
    ensures
        count_in(g, Player::Black, n) + count_in(g, Player::White, n) <= n,
        count_in(g, Player::Black, n) + count_in(g, Player::White, n) == n ==> forall|i: int|
            0 <= i < n ==> g[i] is Some,
    decreases n,
{
    if n > 0 {
        lemma_count_bound(g, n - 1);
    }
}

/// On a grid without an empty cell nobody can move.
pub proof fn lemma_full_grid_is_blocked(g: Grid, player: Player)
    requires
        pieces(g, Player::Black) + pieces(g, Player::White) == 64,
    ensures
        !can_move(g, player),
{
    lemma_count_bound(g, 64);
    assert forall|x: int, y: int| !is_legal_move(g, player, x, y) by {
        if on_board(x, y) {
            assert(g[cell_index(x, y)] is Some);
        }
    }
}

/// Among the first `n` cells a move adds one piece if its own cell is among
/// them, and none otherwise.
proof fn lemma_move_counts(g: Grid, player: Player, x: int, y: int, n: int)
    requires
        is_grid(g),
        is_legal_move(g, player, x, y),
        0 <= n <= 64,
    ensures
        count_in(after_move(g, player, x, y), Player::Black, n) + count_in(
            after_move(g, player, x, y),
            Player::White,
            n,
        ) == count_in(g, Player::Black, n) + count_in(g, Player::White, n) + if cell_index(x, y)
            < n {
            1int
        } else {
            0int
        },
    decreases n,
{
    if n > 0 {
        lemma_move_counts(g, player, x, y, n - 1);
        let i = n - 1;
        if is_flipped(g, player, x, y, i % 8, i / 8) {
            lemma_captured_cell(g, player, x, y, i % 8, i / 8);
        }
    }
}

/// Piece conservation: an accepted move adds exactly one piece to the
/// board. Captures recolor, they never remove.
pub proof fn lemma_move_adds_one_piece(g: Grid, player: Player, x: int, y: int)
    requires
        is_grid(g),
        is_legal_move(g, player, x, y),
    ensures
        is_grid(after_move(g, player, x, y)),
        pieces(after_move(g, player, x, y), Player::Black) + pieces(
            after_move(g, player, x, y),
            Player::White,
        ) == pieces(g, Player::Black) + pieces(g, Player::White) + 1,
        empty_cells(after_move(g, player, x, y)) + 1 == empty_cells(g),
{
    lemma_move_counts(g, player, x, y, 64);
    lemma_count_bound(after_move(g, player, x, y), 64);
    lemma_count_bound(g, 64);
}

/// The cheap check and the full move agree: a move has an outcome exactly
/// where it is legal. The outcome is a grid again, it holds the new piece,
/// and it differs from the grid before only by cells that now belong to the
/// mover: no piece leaves the board.
pub proof fn lemma_move_outcome(g: Grid, player: Player, x: int, y: int)
    requires
        is_grid(g),
    ensures
        move_outcome(g, player, x, y) is Some <==> is_legal_move(g, player, x, y),
        move_outcome(g, player, x, y) matches Some(after) ==> {
            &&& is_grid(after)
            &&& cell(after, x, y) == Some(player)
            &&& forall|i: int|
                0 <= i < 64 && #[trigger] after[i] != g[i] ==> after[i] == Some(player) && (g[i]
                    is None <==> i == cell_index(x, y))
        },
{
    if is_legal_move(g, player, x, y) {
        let after = after_move(g, player, x, y);
        assert forall|i: int| 0 <= i < 64 && #[trigger] after[i] != g[i] implies after[i] == Some(
            player,
        ) && (g[i] is None <==> i == cell_index(x, y)) by {
            if is_flipped(g, player, x, y, i % 8, i / 8) {
                lemma_captured_cell(g, player, x, y, i % 8, i / 8);
            }
        }
    }
}

/// From the standard start position Black can move, for one at `(2, 3)`.
pub proof fn lemma_start_position()
    ensures
        is_grid(start_grid()),
        is_legal_move(start_grid(), Player::Black, 2, 3),
        can_move(start_grid(), Player::Black),
{
    let g = start_grid();
    assert(ray(g, 2, 3, 1, 0, 2) == Some(Player::Black));
    assert forall|k: int| 1 <= k < 2 implies #[trigger] ray(g, 2, 3, 1, 0, k) == Some(
        Player::White,
    ) by {
        assert(k == 1);
    }
    assert(run_closes(g, Player::Black, 2, 3, 1, 0, 2));
    assert(is_direction(1, 0) && captures(g, Player::Black, 2, 3, 1, 0));
}

} // verus!
