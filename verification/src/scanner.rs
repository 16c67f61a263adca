//! The line scanner: what a side sees along one axis through a cell, and the
//! class of that line.

use vstd::prelude::*;
use crate::board::{cell_at, grid_place, in_board, CellState, Side, BOARD_SIZE};
use crate::game::{GameState, GameView};
use crate::pattern::{classify, classify_line, occurs_at, run, LineThreat, Symbol};

verus! {

/// Distance from a cell to the ends of the line that is classified: the line
/// holds the cell itself and four cells on each side.
pub const RADIUS: isize = 4;

/// Distance from a cell to the ends of the line that is searched for a run
/// of more than five: every such run through the cell lies within it.
pub const OVERLINE_RADIUS: isize = 5;

/// The side that a flag stands for: the engine itself or the other player.
pub open spec fn side_of(is_my: bool) -> Side {
    if is_my {
        Side::Mine
    } else {
        Side::Opponent
    }
}

/// The four axes of the board, each by one of its two directions:
/// along a row, along a column, and along the two diagonals.
pub open spec fn is_axis(dx: int, dy: int) -> bool {
    ||| dx == 1 && dy == 0
    ||| dx == 0 && dy == 1
    ||| dx == 1 && dy == 1
    ||| dx == 1 && dy == -1
}

/// What `side` sees at `(px, py)`: a position beyond the edge blocks it like
/// a stone of the other side.
pub open spec fn symbol_at(cells: Seq<CellState>, px: int, py: int, side: Side) -> Symbol {
    if !in_board(px, py) {
        Symbol::Block
    } else if cell_at(cells, px, py) == side.stone_spec() {
        Symbol::Own
    } else if cell_at(cells, px, py) == CellState::Empty {
        Symbol::Free
    } else {
        Symbol::Block
    }
}

/// The line through `(x, y)` along `(dx, dy)`, `radius` cells to each side,
/// as `side` would see it after playing on `(x, y)`: an empty `(x, y)`
/// counts as a stone of the side.
pub open spec fn line_through(
    cells: Seq<CellState>,
    x: int,
    y: int,
    dx: int,
    dy: int,
    side: Side,
    radius: int,
) -> Seq<Symbol> {
    Seq::new(
        (2 * radius + 1) as nat,
        |k: int|
            symbol_at(
                grid_place(cells, x, y, side),
                x + (k - radius) * dx,
                y + (k - radius) * dy,
                side,
            ),
    )
}

/// The line of nine cells that is classified.
pub open spec fn window(
    cells: Seq<CellState>,
    x: int,
    y: int,
    dx: int,
    dy: int,
    side: Side,
) -> Seq<Symbol> {
    line_through(cells, x, y, dx, dy, side, RADIUS as int)
}

impl GameView {
    /// The class of the line through `(x, y)` along `(dx, dy)` for `side`.
    pub open spec fn line_class(self, x: int, y: int, dx: int, dy: int, side: Side) -> LineThreat {
        classify(window(self.cells, x, y, dx, dy, side))
    }
}

impl GameState {
    /// What `side` sees `offset` steps along `(dx, dy)` from `(x, y)`, with
    /// an empty `(x, y)` counted as a stone of the side.
    fn symbol_for(
        &self,
        x: usize,
        y: usize,
        dx: isize,
        dy: isize,
        offset: isize,
        side: Side,
    ) -> (s: Symbol)
        requires
            self.wf(),
            in_board(x as int, y as int),
            is_axis(dx as int, dy as int),
            -8 <= offset <= 8,
        ensures
            s == symbol_at(
                grid_place(self@.cells, x as int, y as int, side),
                x + offset * dx,
                y + offset * dy,
                side,
            ),
    {
        assert(-8 <= offset * dx <= 8 && -8 <= offset * dy <= 8) by (nonlinear_arith)
            requires
                -8 <= offset <= 8,
                -1 <= dx <= 1,
                -1 <= dy <= 1,
        ;
        let nx: isize = x as isize + offset * dx;
        let ny: isize = y as isize + offset * dy;
        if nx < 0 || ny < 0 || nx >= BOARD_SIZE as isize || ny >= BOARD_SIZE as isize {
            return Symbol::Block;
        }
        let c = self.occupant(nx as usize, ny as usize);
        if offset == 0 && c == CellState::Empty {
            assert(offset * dx == 0 && offset * dy == 0) by (nonlinear_arith)
                requires
                    offset == 0,
            ;
            return Symbol::Own;
        }
        proof {
            if offset != 0 {
                assert(offset * dx != 0 || offset * dy != 0) by (nonlinear_arith)
                    requires
                        offset != 0,
                        dx != 0 || dy != 0,
                ;
            }
        }
        if c == side.stone() {
            Symbol::Own
        } else if c == CellState::Empty {
            Symbol::Free
        } else {
            Symbol::Block
        }
    }

    /// Reads the line of `N` cells through `(x, y)` along `(dx, dy)`, where
    /// `N` is twice `radius` and one.
    fn scan<const N: usize>(
        &self,
        x: usize,
        y: usize,
        dx: isize,
        dy: isize,
        radius: isize,
        side: Side,
    ) -> (line: [Symbol; N])
        requires
            self.wf(),
            in_board(x as int, y as int),
            is_axis(dx as int, dy as int),
            0 <= radius <= 8,
            N == 2 * radius + 1,
        ensures
            line@ == line_through(
                self@.cells,
                x as int,
                y as int,
                dx as int,
                dy as int,
                side,
                radius as int,
            ),
    {
        let mut line: [Symbol; N] = [Symbol::Block; N];
        let mut k: usize = 0;
        while k < N
            invariant
                k <= N,
                self.wf(),
                in_board(x as int, y as int),
                is_axis(dx as int, dy as int),
                0 <= radius <= 8,
                N == 2 * radius + 1,
                forall|j: int|
                    0 <= j < k ==> line@[j] == symbol_at(
                        grid_place(self@.cells, x as int, y as int, side),
                        x + (j - radius) * dx,
                        y + (j - radius) * dy,
                        side,
                    ),
            decreases N - k,
        {
            let s = self.symbol_for(x, y, dx, dy, k as isize - radius, side);
            line[k] = s;
            k += 1;
        }
        assert(line@ =~= line_through(
            self@.cells,
            x as int,
            y as int,
            dx as int,
            dy as int,
            side,
            radius as int,
        ));
        line
    }

    /// The line of nine cells through `(x, y)` along the axis `(dx, dy)` as
    /// `side` would see it after playing on `(x, y)`.
    pub fn line_window(
        &self,
        x: usize,
        y: usize,
        dx: isize,
        dy: isize,
        side: Side,
    ) -> (line: [Symbol; 9])
        requires
            self.wf(),
            in_board(x as int, y as int),
            is_axis(dx as int, dy as int),
        ensures
            line@ == window(self@.cells, x as int, y as int, dx as int, dy as int, side),
    {
        self.scan::<9>(x, y, dx, dy, RADIUS, side)
    }

    /// The line of eleven cells through `(x, y)` along the axis `(dx, dy)`
    /// as `side` would see it after playing on `(x, y)`.
    pub fn long_window(
        &self,
        x: usize,
        y: usize,
        dx: isize,
        dy: isize,
        side: Side,
    ) -> (line: [Symbol; 11])
        requires
            self.wf(),
            in_board(x as int, y as int),
            is_axis(dx as int, dy as int),
        ensures
            line@ == line_through(
                self@.cells,
                x as int,
                y as int,
                dx as int,
                dy as int,
                side,
                OVERLINE_RADIUS as int,
            ),
    {
        self.scan::<11>(x, y, dx, dy, OVERLINE_RADIUS, side)
    }

    /// The class of the line through `(x, y)` along the axis `(dx, dy)`, as
    /// the engine (`is_my`) or the other player would see it after playing on
    /// `(x, y)`.
    pub fn evaluate_line_type(
        &self,
        x: usize,
        y: usize,
        dx: isize,
        dy: isize,
        is_my: bool,
    ) -> (t: LineThreat)
        requires
            self.wf(),
            in_board(x as int, y as int),
            is_axis(dx as int, dy as int),
        ensures
            t == self@.line_class(x as int, y as int, dx as int, dy as int, side_of(is_my)),
    {
        let side = if is_my {
            Side::Mine
        } else {
            Side::Opponent
        };
        let line = self.line_window(x, y, dx, dy, side);
        classify_line(&line)
    }
}

/// A line that holds five stones of the side in a row has the class `Five`,
/// whatever else occurs in it.
pub proof fn lemma_five_in_a_row_is_five(line: Seq<Symbol>, i: int)
    requires
        0 <= i,
        i + 5 <= line.len(),
        forall|k: int| i <= k < i + 5 ==> line[k] == Symbol::Own,
    ensures
        classify(line) == LineThreat::Five,
{
    assert(occurs_at(line, run(5), i));
}

/// On every board, for every cell, axis and side: where the line through the
/// cell holds five stones of the side in a row, its class is `Five`.
pub proof fn lemma_five_on_board(v: GameView, x: int, y: int, dx: int, dy: int, side: Side, i: int)
    requires
        v.valid(),
        in_board(x, y),
        is_axis(dx, dy),
        0 <= i <= 4,
        forall|k: int| i <= k < i + 5 ==> window(v.cells, x, y, dx, dy, side)[k] == Symbol::Own,
    ensures
        v.line_class(x, y, dx, dy, side) == LineThreat::Five,
{
    lemma_five_in_a_row_is_five(window(v.cells, x, y, dx, dy, side), i);
}

} // verus!
