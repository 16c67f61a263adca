//! The state of one match: the board, the moves played so far and whether
//! the first move is still awaited.

use vstd::prelude::*;
use crate::board::{
    can_place, cell_at, empty_grid, grid_place, in_board, is_grid, Board, CellState, Side,
    BOARD_SIZE,
};

verus! {

/// The mathematical state of a match.
#[verifier::ext_equal]
pub struct GameView {
    /// The cells of the board, row after row.
    pub cells: Seq<CellState>,
    /// The moves of both sides, in the order in which they were played.
    pub history: Seq<(usize, usize)>,
    /// Whether no move has been played yet.
    pub awaiting_first_move: bool,
    /// Whether the engine's own moves are held to the forbidden-move rules.
    pub constrained: bool,
}

impl GameView {
    /// A state is valid when its board is a grid and, as long as the first
    /// move is awaited, nothing has been played.
    pub open spec fn valid(self) -> bool {
        &&& is_grid(self.cells)
        &&& self.awaiting_first_move ==> self.cells == empty_grid() && self.history.len() == 0
    }

    /// The state before the first move, under the same rules.
    pub open spec fn cleared(self) -> GameView {
        GameView {
            cells: empty_grid(),
            history: Seq::empty(),
            awaiting_first_move: true,
            constrained: self.constrained,
        }
    }

    /// Whether `(x, y)` is a cell of the board with no stone on it.
    pub open spec fn is_empty(self, x: int, y: int) -> bool {
        can_place(self.cells, x, y)
    }

    /// The state after `side` tried to play on `(x, y)`. On an empty cell of
    /// the board the stone is set, the move joins the history and the first
    /// move is no longer awaited. Otherwise nothing has changed.
    pub open spec fn after_move(self, x: usize, y: usize, side: Side) -> GameView {
        if self.is_empty(x as int, y as int) {
            GameView {
                cells: grid_place(self.cells, x as int, y as int, side),
                history: self.history.push((x, y)),
                awaiting_first_move: false,
                constrained: self.constrained,
            }
        } else {
            self
        }
    }
}

/// The state of one match.
#[derive(Clone, Debug)]
pub struct GameState {
    board: Board,
    history: Vec<(usize, usize)>,
    first_move: bool,
    constrained: bool,
}

impl View for GameState {
    type V = GameView;

    closed spec fn view(&self) -> GameView {
        GameView {
            cells: self.board@,
            history: self.history@,
            awaiting_first_move: self.first_move,
            constrained: self.constrained,
        }
    }
}

impl GameState {
    /// A state is well formed when its view is valid.
    pub open spec fn wf(&self) -> bool {
        self@.valid()
    }

    /// A match before its first move, without the forbidden-move rules.
    pub fn new() -> (s: GameState)
        ensures
            s.wf(),
            s@ == (GameView {
                cells: empty_grid(),
                history: Seq::empty(),
                awaiting_first_move: true,
                constrained: false,
            }),
    {
        GameState { board: Board::new(), history: Vec::new(), first_move: true, constrained: false }
    }

    /// A match before its first move in which the engine's own moves are
    /// held to the forbidden-move rules.
    pub fn new_constrained() -> (s: GameState)
        ensures
            s.wf(),
            s@ == (GameView {
                cells: empty_grid(),
                history: Seq::empty(),
                awaiting_first_move: true,
                constrained: true,
            }),
    {
        GameState { board: Board::new(), history: Vec::new(), first_move: true, constrained: true }
    }

    /// Takes every stone off the board, forgets the moves played and awaits
    /// the first move again.
    pub fn reset(&mut self)
        requires
            old(self).wf(),
        ensures
            final(self).wf(),
            final(self)@ == old(self)@.cleared(),
    {
        self.board.reset();
        self.history.clear();
        self.first_move = true;
    }

    /// Whether `(x, y)` is a cell of the board that holds a stone of the
    /// engine.
    pub fn is_my_move(&self, x: usize, y: usize) -> (b: bool)
        requires
            self.wf(),
        ensures
            b == (in_board(x as int, y as int) && cell_at(self@.cells, x as int, y as int)
                == CellState::Mine),
    {
        x < BOARD_SIZE && y < BOARD_SIZE && self.board.occupant(x, y) == CellState::Mine
    }

    /// Whether `(x, y)` is a cell of the board that holds a stone of the
    /// other player.
    pub fn is_opponent_move(&self, x: usize, y: usize) -> (b: bool)
        requires
            self.wf(),
        ensures
            b == (in_board(x as int, y as int) && cell_at(self@.cells, x as int, y as int)
                == CellState::Opponent),
    {
        x < BOARD_SIZE && y < BOARD_SIZE && self.board.occupant(x, y) == CellState::Opponent
    }

    /// Whether `(x, y)` is a cell of the board with no stone on it.
    pub fn is_empty(&self, x: usize, y: usize) -> (b: bool)
        requires
            self.wf(),
        ensures
            b == self@.is_empty(x as int, y as int),
    {
        x < BOARD_SIZE && y < BOARD_SIZE && self.board.occupant(x, y) == CellState::Empty
    }

    /// What the cell `(x, y)` holds.
    pub fn occupant(&self, x: usize, y: usize) -> (c: CellState)
        requires
            self.wf(),
            in_board(x as int, y as int),
        ensures
            c == cell_at(self@.cells, x as int, y as int),
    {
        self.board.occupant(x, y)
    }

    /// Whether no move has been played yet.
    pub fn awaiting_first_move(&self) -> (b: bool)
        ensures
            b == self@.awaiting_first_move,
    {
        self.first_move
    }

    /// Whether the engine's own moves are held to the forbidden-move rules.
    pub fn is_constrained(&self) -> (b: bool)
        ensures
            b == self@.constrained,
    {
        self.constrained
    }

    /// The moves of both sides, in the order in which they were played.
    pub fn history(&self) -> (h: &Vec<(usize, usize)>)
        ensures
            h@ == self@.history,
    {
        &self.history
    }

    /// Plays a stone of `side` on `(x, y)` if that is an empty cell of the
    /// board, and says whether it did. A move that cannot be played leaves
    /// the state as it was.
    pub fn play(&mut self, x: usize, y: usize, side: Side) -> (placed: bool)
        requires
            old(self).wf(),
        ensures
            final(self).wf(),
            placed == old(self)@.is_empty(x as int, y as int),
            final(self)@ == old(self)@.after_move(x, y, side),
    {
        if self.board.place(x, y, side) {
            self.history.push((x, y));
            self.first_move = false;
            true
        } else {
            false
        }
    }
}

/// Resetting twice in a row leaves the state that one reset leaves: an empty
/// board, an empty history, and the first move awaited.
pub proof fn lemma_reset_is_idempotent(v: GameView)
    ensures
        v.cleared().cleared() == v.cleared(),
        v.cleared().cells == empty_grid(),
        v.cleared().history.len() == 0,
        v.cleared().awaiting_first_move,
        v.cleared().valid(),
{
}

} // verus!
