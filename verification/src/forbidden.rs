//! The forbidden-move filter: the placements that the rules deny to the
//! engine when its moves are constrained.
//!
//! Forbidden are a run of more than five, two open threes, two open fours,
//! and an open three together with an open four. The filter reads the board
//! and never changes it.

use vstd::prelude::*;
use crate::board::{in_board, Side};
use crate::game::{GameState, GameView};
use crate::pattern::{contains_pattern, occurs, occurs_at, run, LineThreat, Symbol};
use crate::scanner::{is_axis, line_through, window, OVERLINE_RADIUS};
use crate::threats::AxisClasses;

verus! {

/// Whether the line holds six stones of the side in a row.
pub open spec fn has_overline(line: Seq<Symbol>) -> bool {
    occurs(line, run(6))
}

/// Whether these classes of the engine's four lines break the rule on
/// double threats: two open threes, two open fours, or one of each.
pub open spec fn double_threat_spec(c: AxisClasses) -> bool {
    let threes = c.count_spec(LineThreat::OpenThree);
    let fours = c.count_spec(LineThreat::OpenFour);
    threes >= 2 || fours >= 2 || (threes >= 1 && fours >= 1)
}

/// Whether these classes of the engine's four lines break the rule on
/// double threats.
pub fn double_threat(c: &AxisClasses) -> (b: bool)
    ensures
        b == double_threat_spec(*c),
{
    let threes = c.count(LineThreat::OpenThree);
    let fours = c.count(LineThreat::OpenFour);
    threes >= 2 || fours >= 2 || (threes >= 1 && fours >= 1)
}

impl GameView {
    /// Whether a stone of the engine on `(x, y)` would stand in a run of
    /// more than five along `(dx, dy)`.
    pub open spec fn overline_on(self, x: int, y: int, dx: int, dy: int) -> bool {
        has_overline(line_through(self.cells, x, y, dx, dy, Side::Mine, OVERLINE_RADIUS as int))
    }

    /// Whether a stone of the engine on `(x, y)` would stand in a run of
    /// more than five along some axis.
    pub open spec fn makes_overline(self, x: int, y: int) -> bool {
        ||| self.overline_on(x, y, 1, 0)
        ||| self.overline_on(x, y, 0, 1)
        ||| self.overline_on(x, y, 1, 1)
        ||| self.overline_on(x, y, 1, -1)
    }

    /// Whether the rules deny `(x, y)` to a constrained engine.
    pub open spec fn is_forbidden(self, x: int, y: int) -> bool {
        self.makes_overline(x, y) || double_threat_spec(self.axis_classes(x, y, Side::Mine))
    }

    /// Whether the engine may play on `(x, y)`: the cell is an empty cell of
    /// the board and, if the engine is constrained, not forbidden.
    pub open spec fn is_candidate(self, x: int, y: int) -> bool {
        self.is_empty(x, y) && !(self.constrained && self.is_forbidden(x, y))
    }
}

impl GameState {
    /// Whether a stone of the engine on `(x, y)` would stand in a run of
    /// more than five along `(dx, dy)`.
    pub fn overline_on(&self, x: usize, y: usize, dx: isize, dy: isize) -> (b: bool)
        requires
            self.wf(),
            in_board(x as int, y as int),
            is_axis(dx as int, dy as int),
        ensures
            b == self@.overline_on(x as int, y as int, dx as int, dy as int),
    {
        let line = self.long_window(x, y, dx, dy, Side::Mine);
        let o = Symbol::Own;
        let six: [Symbol; 6] = [o, o, o, o, o, o];
        assert(six@ =~= run(6));
        contains_pattern(&line, &six)
    }

    /// Whether a stone of the engine on `(x, y)` would stand in a run of
    /// more than five along some axis.
    pub fn makes_overline(&self, x: usize, y: usize) -> (b: bool)
        requires
            self.wf(),
            in_board(x as int, y as int),
        ensures
            b == self@.makes_overline(x as int, y as int),
    {
        self.overline_on(x, y, 1, 0) || self.overline_on(x, y, 0, 1) || self.overline_on(x, y, 1, 1)
            || self.overline_on(x, y, 1, -1)
    }

    /// Whether the rules deny `(x, y)` to a constrained engine.
    pub fn is_forbidden(&self, x: usize, y: usize) -> (b: bool)
        requires
            self.wf(),
            in_board(x as int, y as int),
        ensures
            b == self@.is_forbidden(x as int, y as int),
    {
        if self.makes_overline(x, y) {
            return true;
        }
        let mine = self.axis_classes(x, y, true);
        double_threat(&mine)
    }

    /// Whether the engine may play on `(x, y)`.
    pub fn is_candidate(&self, x: usize, y: usize) -> (b: bool)
        requires
            self.wf(),
        ensures
            b == self@.is_candidate(x as int, y as int),
    {
        if !self.is_empty(x, y) {
            return false;
        }
        !(self.is_constrained() && self.is_forbidden(x, y))
    }
}

/// A placement that makes a run of six or more is forbidden, and a
/// constrained engine may not play it.
pub proof fn lemma_six_in_a_row_is_forbidden(v: GameView, x: int, y: int, dx: int, dy: int, i: int)
    requires
        is_axis(dx, dy),
        0 <= i <= 5,
        forall|k: int|
            i <= k < i + 6 ==> line_through(v.cells, x, y, dx, dy, Side::Mine, OVERLINE_RADIUS as int)[k]
                == Symbol::Own,
    ensures
        v.overline_on(x, y, dx, dy),
        v.is_forbidden(x, y),
        v.constrained ==> !v.is_candidate(x, y),
{
    let line = line_through(v.cells, x, y, dx, dy, Side::Mine, OVERLINE_RADIUS as int);
    assert(occurs_at(line, run(6), i));
}

/// A run of exactly five, with no stone of the side before it and none after
/// it, is no run of more than five.
pub proof fn lemma_exactly_five_is_no_overline(line: Seq<Symbol>, i: int)
    requires
        line.len() == 2 * OVERLINE_RADIUS + 1,
        1 <= i <= 5,
        forall|k: int| i <= k < i + 5 ==> line[k] == Symbol::Own,
        line[i - 1] != Symbol::Own,
        line[i + 5] != Symbol::Own,
    ensures
        !has_overline(line),
{
    assert forall|j: int| !occurs_at(line, run(6), j) by {
        if occurs_at(line, run(6), j) {
            if j < i {
                assert(run(6)[i - 1 - j] == Symbol::Own);
                assert(line[j + (i - 1 - j)] == Symbol::Own);
            } else {
                assert(run(6)[i + 5 - j] == Symbol::Own);
                assert(line[j + (i + 5 - j)] == Symbol::Own);
            }
        }
    }
}

/// A placement that makes exactly five along an axis makes `Five` there and
/// is not excluded for a run of more than five along that axis.
pub proof fn lemma_exactly_five_on_board(v: GameView, x: int, y: int, dx: int, dy: int, i: int)
    requires
        is_axis(dx, dy),
        1 <= i <= 5,
        forall|k: int|
            i <= k < i + 5 ==> line_through(v.cells, x, y, dx, dy, Side::Mine, OVERLINE_RADIUS as int)[k]
                == Symbol::Own,
        line_through(v.cells, x, y, dx, dy, Side::Mine, OVERLINE_RADIUS as int)[i - 1] != Symbol::Own,
        line_through(v.cells, x, y, dx, dy, Side::Mine, OVERLINE_RADIUS as int)[i + 5] != Symbol::Own,
    ensures
        !v.overline_on(x, y, dx, dy),
        v.line_class(x, y, dx, dy, Side::Mine) == LineThreat::Five,
{
    let long = line_through(v.cells, x, y, dx, dy, Side::Mine, OVERLINE_RADIUS as int);
    let short = window(v.cells, x, y, dx, dy, Side::Mine);
    lemma_exactly_five_is_no_overline(long, i);
    assert forall|k: int| 0 <= k < 9 implies short[k] == long[k + 1] by {
        assert(k - 4 == (k + 1) - 5);
    }
    assert(occurs_at(short, run(5), i - 1)) by {
        assert forall|k: int| 0 <= k < 5 implies short[i - 1 + k] == #[trigger] run(5)[k] by {
            assert(short[i - 1 + k] == long[i + k]);
        }
    }
}

} // verus!
