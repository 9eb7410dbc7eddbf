//! Walks over the cells of the board: the whole grid in row-major order, and
//! a straight line from a cell towards the edge.

use vstd::prelude::*;
use crate::board::Board;
use crate::error::BoardError;
use crate::rules::on_board;

verus! {

/// An iterator over a 8x8 grid, row by row.
#[derive(Debug)]
pub struct GridIterator {
    x: u8,
    y: u8,
}

impl View for GridIterator {
    type V = int;

    /// The number of cells handed out so far.
    closed spec fn view(&self) -> int {
        self.y * 8 + self.x
    }
}

impl GridIterator {
    #[verifier::type_invariant]
    spec fn inv(self) -> bool {
        self.x < 8 && self.y <= 8 && (self.y == 8 ==> self.x == 0)
    }

    /// An iterator that has handed out nothing yet.
    pub fn new() -> (r: Self)
        ensures
            r@ == 0,
    {
        GridIterator { x: 0, y: 0 }
    }

    /// The next cell in row-major order, `x` running fastest, or nothing
    /// once all 64 cells have been handed out.
    pub fn next(&mut self) -> (r: Option<(u8, u8)>)
        ensures
            0 <= old(self)@ <= 64,
            old(self)@ < 64 ==> r == Some(((old(self)@ % 8) as u8, (old(self)@ / 8) as u8))
                && final(self)@ == old(self)@ + 1,
            old(self)@ == 64 ==> r is None && final(self)@ == 64,
    {
        proof {
            use_type_invariant(&*self);
        }
        if self.y > 7 {
            return None;
        }
        let item = (self.x, self.y);
        if self.x >= 7 {
            *self = GridIterator { x: 0, y: self.y + 1 };
        } else {
            *self = GridIterator { x: self.x + 1, y: self.y };
        }
        Some(item)
    }
}

/// What a [`CellsNavigator`] stands for: a position and a heading.
pub struct NavigatorView {
    pub x: int,
    pub y: int,
    pub dx: int,
    pub dy: int,
}

impl NavigatorView {
    /// The position is on the board and each component of the heading is a
    /// unit or zero.
    pub open spec fn valid(self) -> bool {
        on_board(self.x, self.y) && -1 <= self.dx <= 1 && -1 <= self.dy <= 1
    }

    /// The current cell.
    pub open spec fn position(self) -> (int, int) {
        (self.x, self.y)
    }

    /// The cell one step ahead.
    pub open spec fn ahead(self) -> (int, int) {
        (self.x + self.dx, self.y + self.dy)
    }

    /// The navigator moved one step ahead.
    pub open spec fn advanced(self) -> Self {
        NavigatorView { x: self.x + self.dx, y: self.y + self.dy, dx: self.dx, dy: self.dy }
    }

    /// The navigator turned back.
    pub open spec fn reversed(self) -> Self {
        NavigatorView { x: self.x, y: self.y, dx: -self.dx, dy: -self.dy }
    }

    /// The navigator moved `k` steps ahead.
    pub open spec fn after_steps(self, k: nat) -> Self
        decreases k,
    {
        if k == 0 {
            self
        } else {
            self.after_steps((k - 1) as nat).advanced()
        }
    }

    /// `k` steps ahead is `k` times the heading away.
    pub proof fn lemma_after_steps(self, k: nat)
        ensures
            self.after_steps(k) == (NavigatorView {
                x: self.x + k * self.dx,
                y: self.y + k * self.dy,
                dx: self.dx,
                dy: self.dy,
            }),
        decreases k,
    {
        let (dx, dy) = (self.dx, self.dy);
        if k > 0 {
            let j = (k - 1) as nat;
            self.lemma_after_steps(j);
            assert(k * dx == j * dx + dx && k * dy == j * dy + dy) by (nonlinear_arith)
                requires
                    j == k - 1,
            ;
        } else {
            assert(k * dx == 0 && k * dy == 0) by (nonlinear_arith)
                requires
                    k == 0,
            ;
        }
    }

    /// Turning back after `n` steps retraces the way: the `k`-th step back
    /// stands where the forward walk stood after `n - k` steps, and the
    /// `n`-th step back stands on the cell from which the walk set out.
    pub proof fn lemma_reverse_retraces(self, n: nat, k: nat)
        requires
            k <= n,
        ensures
            self.after_steps(n).reversed().after_steps(k).position() == self.after_steps(
                (n - k) as nat,
            ).position(),
            self.after_steps(n).reversed().after_steps(n).position() == self.position(),
            self.after_steps(n).reversed().after_steps(k).reversed() == self.after_steps(
                (n - k) as nat,
            ),
    {
        self.lemma_after_steps(n);
        self.lemma_after_steps((n - k) as nat);
        let back = self.after_steps(n).reversed();
        back.lemma_after_steps(k);
        back.lemma_after_steps(n);
        let (dx, dy) = (self.dx, self.dy);
        let m = (n - k) as nat;
        assert(n * dx + k * (-dx) == m * dx && n * dy + k * (-dy) == m * dy) by (nonlinear_arith)
            requires
                m == n - k,
        ;
        assert(n * dx + n * (-dx) == 0 && n * dy + n * (-dy) == 0) by (nonlinear_arith);
    }
}

/// Iterator to navigate from a start position up to the limit of a board in
/// a given direction. The start position is excluded from the iteration.
/// The iterator can be reversed to go backward.
#[derive(Debug)]
pub struct CellsNavigator {
    current_position: (i8, i8),
    direction: (i8, i8),
}

impl View for CellsNavigator {
    type V = NavigatorView;

    closed spec fn view(&self) -> NavigatorView {
        NavigatorView {
            x: self.current_position.0 as int,
            y: self.current_position.1 as int,
            dx: self.direction.0 as int,
            dy: self.direction.1 as int,
        }
    }
}

impl CellsNavigator {
    #[verifier::type_invariant]
    spec fn inv(self) -> bool {
        self@.valid()
    }

    /// A navigator that stands on `start` and heads along `direction`.
    /// The start must be a cell of the board and each component of the
    /// direction must lie in `-1..=1`; the coordinates are looked at first.
    pub fn new(start: (u8, u8), direction: (i8, i8)) -> (r: Result<CellsNavigator, BoardError>)
        ensures
            match r {
                Ok(nav) => nav@ == (NavigatorView {
                    x: start.0 as int,
                    y: start.1 as int,
                    dx: direction.0 as int,
                    dy: direction.1 as int,
                }) && nav@.valid(),
                Err(e) => if !on_board(start.0 as int, start.1 as int) {
                    e == (BoardError::CoordinatesOutOfRange { x: start.0, y: start.1 })
                } else {
                    e == (BoardError::DirectionOutOfRange { dx: direction.0, dy: direction.1 })
                        && !(-1 <= direction.0 <= 1 && -1 <= direction.1 <= 1)
                },
            },
            r is Ok <==> on_board(start.0 as int, start.1 as int) && -1 <= direction.0 <= 1 && -1
                <= direction.1 <= 1,
    {
        let (x, y) = start;
        let (dx, dy) = direction;
        match Board::check_coordinates(x, y) {
            Err(e) => {
                return Err(e);
            },
            Ok(()) => {},
        }
        if dx < -1 || dx > 1 || dy < -1 || dy > 1 {
            return Err(BoardError::DirectionOutOfRange { dx, dy });
        }
        Ok(CellsNavigator { current_position: (x as i8, y as i8), direction })
    }

    /// Turns the navigator back: it keeps its position and heads the other
    /// way.
    pub fn reverse(&mut self)
        ensures
            final(self)@ == old(self)@.reversed(),
            final(self)@.valid(),
    {
        proof {
            use_type_invariant(&*self);
        }
        self.direction = (-self.direction.0, -self.direction.1);
    }

    /// Moves one step ahead and returns the cell reached, or stays and
    /// returns nothing where that step would leave the board.
    pub fn next(&mut self) -> (r: Option<(u8, u8)>)
        ensures
            old(self)@.valid(),
            final(self)@.valid(),
            match r {
                Some(p) => on_board(old(self)@.ahead().0, old(self)@.ahead().1) && (
                p.0 as int,
                p.1 as int,
                ) == old(self)@.ahead() && final(self)@ == old(self)@.advanced(),
                None => !on_board(old(self)@.ahead().0, old(self)@.ahead().1) && final(self)@
                    == old(self)@,
            },
    {
        proof {
            use_type_invariant(&*self);
        }
        let (x, y) = self.current_position;
        let (dx, dy) = self.direction;
        let (x, y) = (x + dx, y + dy);
        if x < 0 || x > 7 || y < 0 || y > 7 {
            None
        } else {
            self.current_position = (x, y);
            Some((x as u8, y as u8))
        }
    }
}

} // verus!
