//! The board: an 8x8 grid of cells, and the moves on it.

use vstd::prelude::*;
use vstd::string::StringExecFns;
use crate::error::BoardError;
use crate::player::Player;
use crate::navigator::{CellsNavigator, GridIterator, NavigatorView};
use crate::rules::{
    Grid, after_move, can_move, captured_along, captures, cell, cell_index, closing_distance,
    count_in, direction_at, empty_grid, is_direction, is_flipped, is_grid, is_legal_at, is_legal_move,
    lemma_closing_distance_unique, lemma_directions, lemma_run_is_short,
    lemma_unit_steps, move_outcome, on_board, pieces, ray, ray_point, run_closes, start_grid,
};

verus! {

/// An Othello board, implementing moves.
/// Board does not implement game workflow.
#[derive(Debug, Copy, Clone)]
pub struct Board {
    cells: [[Option<Player>; 8]; 8],
}

impl View for Board {
    type V = Grid;

    /// The 64 cells in row-major order.
    closed spec fn view(&self) -> Grid {
        Seq::new(64, |i: int| self.cells@[i % 8]@[i / 8])
    }
}

impl Board {
    /// The view of a board is a grid of 64 cells.
    pub proof fn lemma_is_grid(&self)
        ensures
            is_grid(self@),
    {
    }

    /// Creates an empty board.
    pub fn new() -> (r: Board)
        ensures
            r@ == empty_grid(),
    {
        Board { cells: [[None;8];8] }
    }

    /// Tells whether `(x, y)` names a cell.
    pub(crate) fn check_coordinates(x: u8, y: u8) -> (r: Result<(), BoardError>)
        ensures
            match r {
                Ok(()) => on_board(x as int, y as int),
                Err(e) => !on_board(x as int, y as int) && e == (BoardError::CoordinatesOutOfRange {
                    x,
                    y,
                }),
            },
    {
        if x > 7 || y > 7 {
            Err(BoardError::CoordinatesOutOfRange { x, y })
        } else {
            Ok(())
        }
    }

    /// The content of a cell, read from the view.
    proof fn lemma_cell(&self, x: int, y: int)
        requires
            on_board(x, y),
        ensures
            cell(self@, x, y) == self.cells@[x]@[y],
            self@[cell_index(x, y)] == self.cells@[x]@[y],
    {
    }

    /// Creates a new board ready to start a game.
    pub fn new_start() -> (r: Board)
        ensures
            r@ == start_grid(),
    {
        let mut board = Self::new();
        let _ = board.set_piece(3, 3, Some(Player::White));
        let _ = board.set_piece(4, 4, Some(Player::White));
        let _ = board.set_piece(3, 4, Some(Player::Black));
        let _ = board.set_piece(4, 3, Some(Player::Black));
        board
    }

    /// Sets the content of a board cell.
    pub fn set_piece(&mut self, x: u8, y: u8, piece: Option<Player>) -> (r: Result<(), BoardError>)
        ensures
            match r {
                Ok(()) => on_board(x as int, y as int) && final(self)@ == old(self)@.update(
                    cell_index(x as int, y as int),
                    piece,
                ),
                Err(e) => !on_board(x as int, y as int) && e == (
                BoardError::CoordinatesOutOfRange { x, y }) && final(self)@ == old(self)@,
            },
    {
        match Self::check_coordinates(x, y) {
            Err(e) => {
                return Err(e);
            },
            Ok(()) => {},
        }
        self.put(x, y, piece);
        Ok(())
    }

    /// Gets the content of a board cell.
    pub fn get_piece(&self, x: u8, y: u8) -> (r: Result<Option<Player>, BoardError>)
        ensures
            match r {
                Ok(piece) => on_board(x as int, y as int) && piece == cell(
                    self@,
                    x as int,
                    y as int,
                ),
                Err(e) => !on_board(x as int, y as int) && e == (
                BoardError::CoordinatesOutOfRange { x, y }),
            },
    {
        match Self::check_coordinates(x, y) {
            Err(e) => {
                return Err(e);
            },
            Ok(()) => {},
        }
        Ok(self.cells[x as usize][y as usize])
    }

    /// The `i`-th of all possible directions to capture opponent pieces.
    fn direction(i: usize) -> (d: (i8, i8))
        requires
            i < 8,
        ensures
            (d.0 as int, d.1 as int) == direction_at(i as int),
            is_direction(d.0 as int, d.1 as int),
    {
        if i == 0 {
            (0, -1)
        } else if i == 1 {
            (1, -1)
        } else if i == 2 {
            (1, 0)
        } else if i == 3 {
            (1, 1)
        } else if i == 4 {
            (0, 1)
        } else if i == 5 {
            (-1, 1)
        } else if i == 6 {
            (-1, 0)
        } else {
            (-1, -1)
        }
    }

    /// Checks if a capture is possible for a given move and a given direction.
    /// Returns a CellsNavigator ready to capture all opponent pieces backward:
    /// it stands on the piece that closes the run and heads for the move.
    fn can_capture(&self, opponent: Player, x: u8, y: u8, direction: (i8, i8)) -> (r: Option<
        CellsNavigator,
    >)
        requires
            on_board(x as int, y as int),
            is_direction(direction.0 as int, direction.1 as int),
        ensures
            r is Some <==> captures(
                self@,
                opponent.other(),
                x as int,
                y as int,
                direction.0 as int,
                direction.1 as int,
            ),
            r matches Some(nav) ==> nav@ == (NavigatorView {
                x: x + closing_distance(
                    self@,
                    opponent.other(),
                    x as int,
                    y as int,
                    direction.0 as int,
                    direction.1 as int,
                ) * direction.0,
                y: y + closing_distance(
                    self@,
                    opponent.other(),
                    x as int,
                    y as int,
                    direction.0 as int,
                    direction.1 as int,
                ) * direction.1,
                dx: -direction.0,
                dy: -direction.1,
            }),
    {
        let ghost g = self@;
        let ghost player = opponent.other();
        let ghost (x0, y0) = (x as int, y as int);
        let ghost (dx, dy) = (direction.0 as int, direction.1 as int);
        let mut navigator = match CellsNavigator::new((x, y), direction) {
            Ok(navigator) => navigator,
            Err(_) => {
                return None;
            },
        };
        let mut found_other_on_path = false;
        let mut can_capture = false;
        let ghost mut k: int = 0;
        proof {
            lemma_unit_steps(dx, 0);
            lemma_unit_steps(dy, 0);
        }
        loop
            invariant_except_break
                navigator@ == (NavigatorView { x: x0 + k * dx, y: y0 + k * dy, dx, dy }),
                !can_capture,
            invariant
                g == self@,
                player == opponent.other(),
                (x0, y0) == (x as int, y as int),
                (dx, dy) == (direction.0 as int, direction.1 as int),
                on_board(x0, y0),
                is_direction(dx, dy),
                0 <= k <= 7,
                found_other_on_path <==> k >= 1,
                forall|j: int| 1 <= j <= k ==> #[trigger] ray(g, x0, y0, dx, dy, j) == Some(opponent),
            ensures
                ray(g, x0, y0, dx, dy, k + 1) != Some(opponent),
                can_capture <==> k >= 1 && ray(g, x0, y0, dx, dy, k + 1) == Some(player),
                can_capture ==> navigator@ == (NavigatorView {
                    x: x0 + (k + 1) * dx,
                    y: y0 + (k + 1) * dy,
                    dx,
                    dy,
                }),
            decreases 7 - k,
        {
            proof {
                lemma_unit_steps(dx, k);
                lemma_unit_steps(dy, k);
                lemma_unit_steps(dx, k + 1);
                lemma_unit_steps(dy, k + 1);
            }
            match navigator.next() {
                None => {
                    break ;
                },
                Some(position) => {
                    proof {
                        self.lemma_cell(position.0 as int, position.1 as int);
                    }
                    let piece = self.cells[position.0 as usize][position.1 as usize];
                    match piece {
                        // Not a valid move.
                        None => {
                            break ;
                        },
                        Some(p) => {
                            if p == opponent {
                                // Perhaps a valid move.
                                found_other_on_path = true;
                                proof {
                                    k = k + 1;
                                }
                            } else {
                                // The player passed over opponent's pieces and reached one
                                // of his own: he can capture them.
                                can_capture = found_other_on_path;
                                break ;
                            }
                        },
                    }
                },
            }
        }
        if can_capture {
            proof {
                let n = k + 1;
                lemma_closing_distance_unique(
                    g,
                    player,
                    x0,
                    y0,
                    dx,
                    dy,
                    n,
                    closing_distance(g, player, x0, y0, dx, dy),
                );
            }
            navigator.reverse();
            return Some(navigator);
        }
        proof {
            // A run would close within the cells that the opponent holds, on
            // the cell that stopped the walk, or beyond it.
            assert forall|n: int| !run_closes(g, player, x0, y0, dx, dy, n) by {
                if run_closes(g, player, x0, y0, dx, dy, n) {
                    if n <= k {
                        assert(ray(g, x0, y0, dx, dy, n) == Some(opponent));
                    } else if n > k + 1 {
                        assert(ray(g, x0, y0, dx, dy, k + 1) == Some(player.other()));
                    }
                }
            }
        }
        None
    }

    /// Writes a cell that is known to lie on the board.
    fn put(&mut self, x: u8, y: u8, piece: Option<Player>)
        requires
            on_board(x as int, y as int),
        ensures
            final(self)@ == old(self)@.update(cell_index(x as int, y as int), piece),
    {
        self.cells[x as usize][y as usize] = piece;
    }

    /// Checks if the given player can move to the given coordinates.
    /// It's faster than play as it does just the bare minimum.
    pub fn is_move_valid(&self, player: Player, x: u8, y: u8) -> (r: Result<bool, BoardError>)
        ensures
            match r {
                Ok(valid) => on_board(x as int, y as int) && valid == is_legal_move(
                    self@,
                    player,
                    x as int,
                    y as int,
                ),
                Err(e) => !on_board(x as int, y as int) && e == (
                BoardError::CoordinatesOutOfRange { x, y }),
            },
    {
        match Self::check_coordinates(x, y) {
            Err(e) => {
                return Err(e);
            },
            Ok(()) => {},
        }
        proof {
            self.lemma_cell(x as int, y as int);
        }
        // Only moves targeting empty cells are valids.
        if self.cells[x as usize][y as usize].is_some() {
            return Ok(false);
        }
        let other_player = player.opponent();
        let mut i: usize = 0;
        while i < 8
            invariant
                0 <= i <= 8,
                on_board(x as int, y as int),
                cell(self@, x as int, y as int) is None,
                other_player == player.other(),
                forall|j: int| 0 <= j < i ==> !captures_toward(self@, player, x as int, y as int, j),
            decreases 8 - i,
        {
            let direction = Self::direction(i);
            if let Some(_) = self.can_capture(other_player, x, y, direction) {
                return Ok(true);
            }
            i += 1;
        }
        // No capture is possible in any direction : invalid move
        proof {
            lemma_no_capture(self@, player, x as int, y as int);
        }
        Ok(false)
    }

    /// Plays at the given position for the given player.
    /// If the move is valid a new Board is returned, else None.
    pub fn play(&self, player: Player, x: u8, y: u8) -> (r: Result<Option<Board>, BoardError>)
        ensures
            match r {
                Ok(Some(board)) => on_board(x as int, y as int) && move_outcome(
                    self@,
                    player,
                    x as int,
                    y as int,
                ) == Some(board@),
                Ok(None) => on_board(x as int, y as int) && move_outcome(
                    self@,
                    player,
                    x as int,
                    y as int,
                ) is None,
                Err(e) => !on_board(x as int, y as int) && e == (
                BoardError::CoordinatesOutOfRange { x, y }),
            },
    {
        match Self::check_coordinates(x, y) {
            Err(e) => {
                return Err(e);
            },
            Ok(()) => {},
        }
        proof {
            self.lemma_cell(x as int, y as int);
        }
        // Only moves targeting empty cells are valids.
        if self.cells[x as usize][y as usize].is_some() {
            return Ok(None);
        }
        let ghost g = self@;
        let ghost (x0, y0) = (x as int, y as int);
        // Explores the 8 possible directions and try to capture opponent pieces.
        // If at least one capture is possible, the move is valid.
        let mut new_board = *self;
        let other_player = player.opponent();
        let mut valid_move = false;
        let mut i: usize = 0;
        while i < 8
            invariant
                0 <= i <= 8,
                g == self@,
                (x0, y0) == (x as int, y as int),
                on_board(x0, y0),
                cell(g, x0, y0) is None,
                other_player == player.other(),
                valid_move <==> exists|j: int| 0 <= j < i && captures_toward(g, player, x0, y0, j),
                forall|c: int|
                    0 <= c < 64 ==> #[trigger] new_board@[c] == if flipped_by_first(
                        g,
                        player,
                        x0,
                        y0,
                        i as int,
                        c % 8,
                        c / 8,
                    ) {
                        Some(player)
                    } else {
                        g[c]
                    },
            decreases 8 - i,
        {
            let direction = Self::direction(i);
            let ghost (dx, dy) = (direction.0 as int, direction.1 as int);
            match self.can_capture(other_player, x, y, direction) {
                Some(mut navigator) => {
                    // Let's capture opponent's pieces going backward.
                    valid_move = true;
                    let ghost n = closing_distance(g, player, x0, y0, dx, dy);
                    let ghost mut m = n;
                    proof {
                        assert(captures_toward(g, player, x0, y0, i as int));
                        lemma_run_is_short(g, player, x0, y0, dx, dy, n);
                    }
                    loop
                        invariant_except_break
                            navigator@ == (NavigatorView {
                                x: x0 + m * dx,
                                y: y0 + m * dy,
                                dx: -dx,
                                dy: -dy,
                            }),
                        invariant
                            0 <= i < 8,
                            (x0, y0) == (x as int, y as int),
                            on_board(x0, y0),
                            (dx, dy) == direction_at(i as int),
                            is_direction(dx, dy),
                            run_closes(g, player, x0, y0, dx, dy, n),
                            1 <= m <= n <= 7,
                            forall|c: int|
                                0 <= c < 64 ==> #[trigger] new_board@[c] == if flipped_by_first(
                                    g,
                                    player,
                                    x0,
                                    y0,
                                    i as int,
                                    c % 8,
                                    c / 8,
                                ) || in_segment(x0, y0, dx, dy, m, n, c % 8, c / 8) {
                                    Some(player)
                                } else {
                                    g[c]
                                },
                        ensures
                            m == 1,
                        decreases m,
                    {
                        proof {
                            lemma_unit_steps(dx, m);
                            lemma_unit_steps(dy, m);
                            lemma_unit_steps(dx, m - 1);
                            lemma_unit_steps(dy, m - 1);
                            lemma_unit_steps(dx, n);
                            lemma_unit_steps(dy, n);
                        }
                        match navigator.next() {
                            None => {
                                break ;
                            },
                            Some(position) => {
                                // reverse iteration stop at move position
                                if position.0 == x && position.1 == y {
                                    break ;
                                }
                                new_board.put(position.0, position.1, Some(player));
                                proof {
                                    assert forall|c: int| 0 <= c < 64 implies #[trigger] new_board@[c]
                                        == if flipped_by_first(
                                        g,
                                        player,
                                        x0,
                                        y0,
                                        i as int,
                                        c % 8,
                                        c / 8,
                                    ) || in_segment(x0, y0, dx, dy, m - 1, n, c % 8, c / 8) {
                                        Some(player)
                                    } else {
                                        g[c]
                                    } by {
                                        lemma_segment_grows(x0, y0, dx, dy, m - 1, n, c % 8, c / 8);
                                    }
                                    m = m - 1;
                                }
                            },
                        }
                    }
                    proof {
                        assert forall|c: int| 0 <= c < 64 implies #[trigger] new_board@[c]
                            == if flipped_by_first(g, player, x0, y0, i + 1, c % 8, c / 8) {
                            Some(player)
                        } else {
                            g[c]
                        } by {
                            lemma_segment_is_capture(g, player, x0, y0, i as int, n, c % 8, c / 8);
                            lemma_flipped_by_next(g, player, x0, y0, i as int, c % 8, c / 8);
                        }
                    }
                },
                None => {
                    proof {
                        assert forall|c: int| 0 <= c < 64 implies #[trigger] new_board@[c]
                            == if flipped_by_first(g, player, x0, y0, i + 1, c % 8, c / 8) {
                            Some(player)
                        } else {
                            g[c]
                        } by {
                            lemma_flipped_by_next(g, player, x0, y0, i as int, c % 8, c / 8);
                        }
                    }
                },
            }
            i += 1;
        }
        if valid_move {
            new_board.put(x, y, Some(player));
            proof {
                let j = choose|j: int| 0 <= j < 8 && captures_toward(g, player, x0, y0, j);
                lemma_directions(direction_at(j).0, direction_at(j).1);
                assert forall|c: int| 0 <= c < 64 implies new_board@[c] == after_move(
                    g,
                    player,
                    x0,
                    y0,
                )[c] by {
                    lemma_flipped_by_all(g, player, x0, y0, c % 8, c / 8);
                }
            }
            Ok(Some(new_board))
        } else {
            proof {
                lemma_no_capture(g, player, x0, y0);
            }
            Ok(None)
        }
    }

    /// Returns an iterator on the board.
    /// The iterator will returns all cells positions and their contents.
    pub fn iter(&self) -> (r: BoardIterator<'_>)
        ensures
            r.board() == *self,
            r.index() == 0,
    {
        BoardIterator::new(self)
    }

    /// Cheks if a given player can move in at least one position.
    pub fn can_player_move(&self, player: Player) -> (r: bool)
        ensures
            r == can_move(self@, player),
    {
        let mut cells = GridIterator::new();
        loop
            invariant
                0 <= cells@ <= 64,
                forall|i: int| 0 <= i < cells@ ==> !is_legal_at(self@, player, i),
            ensures
                cells@ == 64,
            decreases 64 - cells@,
        {
            match cells.next() {
                None => {
                    break ;
                },
                Some((x, y)) => {
                    let can_move = match self.is_move_valid(player, x, y) {
                        Ok(valid) => valid,
                        Err(_) => false,
                    };
                    if can_move {
                        return true;
                    }
                },
            }
        }
        proof {
            assert forall|x: int, y: int| !is_legal_move(self@, player, x, y) by {
                if on_board(x, y) {
                    let i = cell_index(x, y);
                    assert(!is_legal_at(self@, player, i));
                }
            }
        }
        false
    }

    /// Count the pieces on the board.
    /// It returns a tuple with black pieces count as the first item,
    /// and white pieces count as the second.
    pub fn count_pieces(&self) -> (r: (u8, u8))
        ensures
            r.0 == pieces(self@, Player::Black),
            r.1 == pieces(self@, Player::White),
            r.0 + r.1 <= 64,
    {
        let mut black_pieces: u8 = 0;
        let mut white_pieces: u8 = 0;
        let mut cells = self.iter();
        loop
            invariant
                cells.board() == *self,
                0 <= cells.index() <= 64,
                black_pieces == count_in(self@, Player::Black, cells.index()),
                white_pieces == count_in(self@, Player::White, cells.index()),
                black_pieces + white_pieces <= cells.index(),
            ensures
                cells.index() == 64,
            decreases 64 - cells.index(),
        {
            match cells.next() {
                None => {
                    break ;
                },
                Some((_, _, piece)) => {
                    match piece {
                        Some(Player::Black) => {
                            black_pieces += 1;
                        },
                        Some(Player::White) => {
                            white_pieces += 1;
                        },
                        None => {},
                    }
                },
            }
        }
        (black_pieces, white_pieces)
    }

    /// Builds an ascii representation of the board. Not a fancy one,
    /// just enough to see what it looks like.
    pub fn to_text(&self) -> (r: String)
        ensures
            r@ == board_text(self@),
    {
        let mut text = String::new();
        let mut y: u8 = 0;
        while y < 8
            invariant
                0 <= y <= 8,
                text@ == rows_text(self@, y as nat),
            decreases 8 - y,
        {
            let ghost above = text@;
            let mut x: u8 = 0;
            while x < 8
                invariant
                    0 <= x <= 8,
                    0 <= y < 8,
                    text@ == above + Seq::new(x as nat, |i: int| glyph(cell(self@, i, y as int))),
                decreases 8 - x,
            {
                proof {
                    self.lemma_cell(x as int, y as int);
                    reveal_strlit(" ");
                    reveal_strlit("X");
                    reveal_strlit("O");
                }
                let piece_representation = match self.cells[x as usize][y as usize] {
                    None => " ",
                    Some(Player::Black) => "X",
                    Some(Player::White) => "O",
                };
                text.append(piece_representation);
                x += 1;
            }
            proof {
                reveal_strlit(".\n");
            }
            text.append(".\n");
            y += 1;
        }
        text
    }
}

/// The character that stands for the content of a cell.
pub open spec fn glyph(piece: Option<Player>) -> char {
    match piece {
        None => ' ',
        Some(Player::Black) => 'X',
        Some(Player::White) => 'O',
    }
}

/// One row of the board as text: its eight cells, a dot and a line break.
pub open spec fn row_text(g: Grid, y: int) -> Seq<char> {
    Seq::new(8, |x: int| glyph(cell(g, x, y))) + seq!['.', '\n']
}

/// The first `n` rows of the board as text.
pub open spec fn rows_text(g: Grid, n: nat) -> Seq<char>
    decreases n,
{
    if n == 0 {
        Seq::empty()
    } else {
        rows_text(g, (n - 1) as nat) + row_text(g, n - 1)
    }
}

/// The board as text, row by row from the top.
pub open spec fn board_text(g: Grid) -> Seq<char> {
    rows_text(g, 8)
}

/// Implements an iterator on the board wich returns
/// each position of the board and its content.
#[derive(Debug)]
pub struct BoardIterator<'a> {
    board: &'a Board,
    grid_iterator: GridIterator,
}

impl<'a> BoardIterator<'a> {
    /// The board that is walked over.
    pub closed spec fn board(&self) -> Board {
        *self.board
    }

    /// The number of cells handed out so far.
    pub closed spec fn index(&self) -> int {
        self.grid_iterator@
    }

    fn new(board: &'a Board) -> (r: Self)
        ensures
            r.board() == *board,
            r.index() == 0,
    {
        BoardIterator { board, grid_iterator: GridIterator::new() }
    }

    /// The next cell in row-major order with its content, or nothing once
    /// all 64 cells have been handed out.
    pub fn next(&mut self) -> (r: Option<(u8, u8, Option<Player>)>)
        ensures
            final(self).board() == old(self).board(),
            0 <= old(self).index() <= 64,
            old(self).index() < 64 ==> r == Some(
                (
                    (old(self).index() % 8) as u8,
                    (old(self).index() / 8) as u8,
                    old(self).board()@[old(self).index()],
                ),
            ) && final(self).index() == old(self).index() + 1,
            old(self).index() == 64 ==> r is None && final(self).index() == 64,
    {
        let current_position = self.grid_iterator.next();
        match current_position {
            None => None,
            Some((x, y)) => {
                proof {
                    self.board.lemma_cell(x as int, y as int);
                }
                match self.board.get_piece(x, y) {
                    Ok(piece) => Some((x, y, piece)),
                    Err(_) => None,
                }
            },
        }
    }
}

/// A move of `player` at `(x, y)` captures along the `j`-th direction.
spec fn captures_toward(g: Grid, player: Player, x: int, y: int, j: int) -> bool {
    captures(g, player, x, y, direction_at(j).0, direction_at(j).1)
}

/// The cell `(cx, cy)` is captured along the `j`-th direction.
spec fn captured_toward(g: Grid, player: Player, x: int, y: int, j: int, cx: int, cy: int) -> bool {
    captured_along(g, player, x, y, direction_at(j).0, direction_at(j).1, cx, cy)
}

/// The cell `(cx, cy)` is captured along one of the first `d` directions.
spec fn flipped_by_first(
    g: Grid,
    player: Player,
    x: int,
    y: int,
    d: int,
    cx: int,
    cy: int,
) -> bool {
    exists|j: int| 0 <= j < d && #[trigger] captured_toward(g, player, x, y, j, cx, cy)
}

/// The cell `(cx, cy)` lies on the ray at a distance from `lo` up to, and
/// without, `hi`.
spec fn in_segment(x: int, y: int, dx: int, dy: int, lo: int, hi: int, cx: int, cy: int) -> bool {
    exists|k: int| lo <= k < hi && #[trigger] ray_point(x, y, dx, dy, k) == (cx, cy)
}

/// A segment is its first point and the segment that starts one step later.
proof fn lemma_segment_grows(x: int, y: int, dx: int, dy: int, lo: int, hi: int, cx: int, cy: int)
    requires
        lo < hi,
    ensures
        in_segment(x, y, dx, dy, lo, hi, cx, cy) <==> in_segment(x, y, dx, dy, lo + 1, hi, cx, cy)
            || ray_point(x, y, dx, dy, lo) == (cx, cy),
{
    if in_segment(x, y, dx, dy, lo + 1, hi, cx, cy) {
        let k = choose|k: int| lo + 1 <= k < hi && #[trigger] ray_point(x, y, dx, dy, k) == (cx, cy);
        assert(lo <= k < hi);
    }
}

/// The cells captured along a direction are the points of the ray before
/// the piece that closes the run.
proof fn lemma_segment_is_capture(
    g: Grid,
    player: Player,
    x: int,
    y: int,
    j: int,
    n: int,
    cx: int,
    cy: int,
)
    requires
        run_closes(g, player, x, y, direction_at(j).0, direction_at(j).1, n),
    ensures
        in_segment(x, y, direction_at(j).0, direction_at(j).1, 1, n, cx, cy) <==> captured_toward(
            g,
            player,
            x,
            y,
            j,
            cx,
            cy,
        ),
{
    let (dx, dy) = direction_at(j);
    if captured_toward(g, player, x, y, j, cx, cy) {
        let (n2, k) = choose|n2: int, k: int|
            #[trigger] run_closes(g, player, x, y, dx, dy, n2) && 1 <= k < n2
                && #[trigger] ray_point(x, y, dx, dy, k) == (cx, cy);
        lemma_closing_distance_unique(g, player, x, y, dx, dy, n, n2);
    }
}

/// The cells captured along the first `d + 1` directions are those captured
/// along the first `d` and those captured along the `d`-th; a direction that
/// does not capture adds none.
proof fn lemma_flipped_by_next(g: Grid, player: Player, x: int, y: int, d: int, cx: int, cy: int)
    requires
        0 <= d,
    ensures
        flipped_by_first(g, player, x, y, d + 1, cx, cy) <==> flipped_by_first(
            g,
            player,
            x,
            y,
            d,
            cx,
            cy,
        ) || captured_toward(g, player, x, y, d, cx, cy),
        !captures_toward(g, player, x, y, d) ==> !captured_toward(g, player, x, y, d, cx, cy),
{
    if flipped_by_first(g, player, x, y, d, cx, cy) {
        let j = choose|j: int| 0 <= j < d && #[trigger] captured_toward(g, player, x, y, j, cx, cy);
        assert(0 <= j < d + 1);
    }
}

/// The cells captured along the eight directions are the cells that the
/// move recolors.
proof fn lemma_flipped_by_all(g: Grid, player: Player, x: int, y: int, cx: int, cy: int)
    ensures
        flipped_by_first(g, player, x, y, 8, cx, cy) <==> is_flipped(g, player, x, y, cx, cy),
{
    if flipped_by_first(g, player, x, y, 8, cx, cy) {
        let j = choose|j: int| 0 <= j < 8 && #[trigger] captured_toward(g, player, x, y, j, cx, cy);
        lemma_directions(direction_at(j).0, direction_at(j).1);
    }
    if is_flipped(g, player, x, y, cx, cy) {
        let (dx, dy) = choose|dx: int, dy: int|
            is_direction(dx, dy) && #[trigger] captured_along(g, player, x, y, dx, dy, cx, cy);
        lemma_directions(dx, dy);
        let j = choose|j: int| 0 <= j < 8 && #[trigger] direction_at(j) == (dx, dy);
        assert(captured_toward(g, player, x, y, j, cx, cy));
    }
}

/// Where none of the eight directions captures, the move is not legal.
proof fn lemma_no_capture(g: Grid, player: Player, x: int, y: int)
    requires
        forall|j: int| 0 <= j < 8 ==> !captures_toward(g, player, x, y, j),
    ensures
        !is_legal_move(g, player, x, y),
{
    assert forall|dx: int, dy: int| is_direction(dx, dy) implies !#[trigger] captures(
        g,
        player,
        x,
        y,
        dx,
        dy,
    ) by {
        lemma_directions(dx, dy);
        let j = choose|j: int| 0 <= j < 8 && #[trigger] direction_at(j) == (dx, dy);
        assert(!captures_toward(g, player, x, y, j));
    }
}

} // verus!
