//! The board: a square grid whose cells are empty or hold a stone of one of
//! the two sides.

use vstd::prelude::*;

verus! {

/// Side length of the board.
pub const BOARD_SIZE: usize = 31;

/// Coordinate of the middle row and of the middle column.
pub const CENTER: usize = 15;

/// Number of cells of the board.
pub const CELL_COUNT: usize = 961;

/// What a cell holds.
#[derive(Clone, Copy, Debug, PartialEq, Eq, Structural)]
pub enum CellState {
    Empty,
    Mine,
    Opponent,
}

/// One of the two players: the engine itself (`Mine`) or the other player.
#[derive(Clone, Copy, Debug, PartialEq, Eq, Structural)]
pub enum Side {
    Mine,
    Opponent,
}

impl Side {
    /// The stone that this side puts on the board.
    pub open spec fn stone_spec(self) -> CellState {
        match self {
            Side::Mine => CellState::Mine,
            Side::Opponent => CellState::Opponent,
        }
    }

    /// The stone that this side puts on the board.
    #[verifier::when_used_as_spec(stone_spec)]
    pub fn stone(self) -> (c: CellState)
        ensures
            c == self.stone_spec(),
    {
        match self {
            Side::Mine => CellState::Mine,
            Side::Opponent => CellState::Opponent,
        }
    }

    /// The other player.
    pub open spec fn other_spec(self) -> Side {
        match self {
            Side::Mine => Side::Opponent,
            Side::Opponent => Side::Mine,
        }
    }

    /// The other player.
    #[verifier::when_used_as_spec(other_spec)]
    pub fn other(self) -> (s: Side)
        ensures
            s == self.other_spec(),
    {
        match self {
            Side::Mine => Side::Opponent,
            Side::Opponent => Side::Mine,
        }
    }
}

/// Whether `(x, y)` names a cell of the board.
pub open spec fn in_board(x: int, y: int) -> bool {
    0 <= x < BOARD_SIZE && 0 <= y < BOARD_SIZE
}

/// Position of cell `(x, y)` in the row-major sequence of cells.
pub open spec fn cell_index(x: int, y: int) -> int {
    y * BOARD_SIZE + x
}

/// A grid is a sequence of `CELL_COUNT` cells, row after row.
pub open spec fn is_grid(cells: Seq<CellState>) -> bool {
    cells.len() == CELL_COUNT
}

/// What the grid holds at `(x, y)`.
pub open spec fn cell_at(cells: Seq<CellState>, x: int, y: int) -> CellState
    recommends
        is_grid(cells),
        in_board(x, y),
{
    cells[cell_index(x, y)]
}

/// The grid with no stone on it.
pub open spec fn empty_grid() -> Seq<CellState> {
    Seq::new(CELL_COUNT as nat, |i: int| CellState::Empty)
}

/// The grid after `side` tried to put a stone on `(x, y)`: the stone is there
/// if the cell is on the board and was empty, else nothing has changed.
pub open spec fn grid_place(cells: Seq<CellState>, x: int, y: int, side: Side) -> Seq<CellState> {
    if can_place(cells, x, y) {
        cells.update(cell_index(x, y), side.stone_spec())
    } else {
        cells
    }
}

/// Whether a stone can be put on `(x, y)`: the cell is on the board and empty.
pub open spec fn can_place(cells: Seq<CellState>, x: int, y: int) -> bool {
    in_board(x, y) && cell_at(cells, x, y) == CellState::Empty
}

/// A stone that is set changes the cell that it is set on and no other, and
/// a cell that holds a stone keeps it.
pub proof fn lemma_place_touches_one_cell(
    cells: Seq<CellState>,
    x: int,
    y: int,
    side: Side,
    px: int,
    py: int,
)
    requires
        is_grid(cells),
        in_board(px, py),
    ensures
        is_grid(grid_place(cells, x, y, side)),
        (px != x || py != y) ==> cell_at(grid_place(cells, x, y, side), px, py) == cell_at(
            cells,
            px,
            py,
        ),
        cell_at(cells, px, py) != CellState::Empty ==> cell_at(grid_place(cells, x, y, side), px, py)
            == cell_at(cells, px, py),
        can_place(cells, x, y) ==> cell_at(grid_place(cells, x, y, side), x, y) == side.stone_spec(),
{
}

/// The playing field.
#[derive(Clone, Debug)]
pub struct Board {
    cells: Vec<CellState>,
}

impl View for Board {
    type V = Seq<CellState>;

    closed spec fn view(&self) -> Seq<CellState> {
        self.cells@
    }
}

impl Board {
    /// A board is well formed when it has one entry for each cell.
    pub open spec fn wf(&self) -> bool {
        is_grid(self@)
    }

    /// A board with no stone on it.
    pub fn new() -> (b: Board)
        ensures
            b.wf(),
            b@ == empty_grid(),
    {
        let mut cells: Vec<CellState> = Vec::new();
        let mut i: usize = 0;
        while i < CELL_COUNT
            invariant
                i <= CELL_COUNT,
                cells@.len() == i,
                forall|k: int| 0 <= k < i ==> cells@[k] == CellState::Empty,
            decreases CELL_COUNT - i,
        {
            cells.push(CellState::Empty);
            i += 1;
        }
        assert(cells@ =~= empty_grid());
        Board { cells }
    }

    /// What the cell `(x, y)` holds.
    pub fn occupant(&self, x: usize, y: usize) -> (c: CellState)
        requires
            self.wf(),
            in_board(x as int, y as int),
        ensures
            c == cell_at(self@, x as int, y as int),
    {
        self.cells[y * BOARD_SIZE + x]
    }

    /// Puts a stone of `side` on `(x, y)` if the cell is on the board and
    /// empty, and says whether it did. Otherwise the board stays as it was.
    pub fn place(&mut self, x: usize, y: usize, side: Side) -> (placed: bool)
        requires
            old(self).wf(),
        ensures
            final(self).wf(),
            placed == can_place(old(self)@, x as int, y as int),
            final(self)@ == grid_place(old(self)@, x as int, y as int, side),
    {
        if x < BOARD_SIZE && y < BOARD_SIZE {
            let i: usize = y * BOARD_SIZE + x;
            if self.cells[i] == CellState::Empty {
                self.cells[i] = side.stone();
                return true;
            }
        }
        false
    }

    /// Takes every stone off the board.
    pub fn reset(&mut self)
        requires
            old(self).wf(),
        ensures
            final(self).wf(),
            final(self)@ == empty_grid(),
    {
        let mut i: usize = 0;
        while i < CELL_COUNT
            invariant
                i <= CELL_COUNT,
                self.cells@.len() == CELL_COUNT,
                forall|k: int| 0 <= k < i ==> self.cells@[k] == CellState::Empty,
            decreases CELL_COUNT - i,
        {
            self.cells[i] = CellState::Empty;
            i += 1;
        }
        assert(self.cells@ =~= empty_grid());
    }
}

} // verus!
