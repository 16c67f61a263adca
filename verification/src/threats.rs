//! The threat aggregator: the classes of the four lines through a cell for
//! both sides, folded into counts and flags.

use vstd::prelude::*;
use crate::board::{in_board, Side};
use crate::game::{GameState, GameView};
use crate::pattern::LineThreat;
use crate::scanner::side_of;

verus! {

/// The classes of the four lines through one cell for one side.
#[derive(Clone, Copy, Debug, PartialEq, Eq, Structural)]
pub struct AxisClasses {
    /// Along the row, direction `(1, 0)`.
    pub horizontal: LineThreat,
    /// Along the column, direction `(0, 1)`.
    pub vertical: LineThreat,
    /// Along the diagonal, direction `(1, 1)`.
    pub diagonal: LineThreat,
    /// Along the other diagonal, direction `(1, -1)`.
    pub anti_diagonal: LineThreat,
}

/// 1 if the two classes are the same, else 0.
pub open spec fn one_if_same(a: LineThreat, b: LineThreat) -> int {
    if a == b {
        1
    } else {
        0
    }
}

impl AxisClasses {
    /// On how many of the four axes the class is `class`.
    pub open spec fn count_spec(self, class: LineThreat) -> int {
        one_if_same(self.horizontal, class) + one_if_same(self.vertical, class) + one_if_same(
            self.diagonal,
            class,
        ) + one_if_same(self.anti_diagonal, class)
    }

    /// On how many of the four axes the class is `class`.
    pub fn count(&self, class: LineThreat) -> (n: u8)
        ensures
            n == self.count_spec(class),
    {
        let mut n: u8 = 0;
        if self.horizontal == class {
            n += 1;
        }
        if self.vertical == class {
            n += 1;
        }
        if self.diagonal == class {
            n += 1;
        }
        if self.anti_diagonal == class {
            n += 1;
        }
        n
    }

    /// Whether the class on some axis is `class` or stronger.
    pub open spec fn any_at_least_spec(self, class: LineThreat) -> bool {
        ||| self.horizontal.rank_spec() >= class.rank_spec()
        ||| self.vertical.rank_spec() >= class.rank_spec()
        ||| self.diagonal.rank_spec() >= class.rank_spec()
        ||| self.anti_diagonal.rank_spec() >= class.rank_spec()
    }

    /// Whether the class on some axis is `class` or stronger.
    pub fn any_at_least(&self, class: LineThreat) -> (b: bool)
        ensures
            b == self.any_at_least_spec(class),
    {
        self.horizontal.at_least(class) || self.vertical.at_least(class) || self.diagonal.at_least(
            class,
        ) || self.anti_diagonal.at_least(class)
    }
}

/// What playing on one cell would mean for both sides.
#[derive(Clone, Copy, Debug, PartialEq, Eq, Structural)]
pub struct ThreatSummary {
    /// The classes of the four lines for the engine.
    pub mine: AxisClasses,
    /// The classes of the four lines for the other player.
    pub theirs: AxisClasses,
    /// On how many axes the engine gets an open three.
    pub my_open_threes: u8,
    /// On how many axes the engine gets an open four.
    pub my_open_fours: u8,
    /// On how many axes the other player gets an open three.
    pub their_open_threes: u8,
    /// On how many axes the other player gets an open four.
    pub their_open_fours: u8,
    /// Whether the other player gets a blocked four or better on some axis,
    /// so that the cell must be taken to stop a run of four or more.
    pub critical: bool,
}

/// The summary that belongs to the classes of the two sides.
pub open spec fn summarize(mine: AxisClasses, theirs: AxisClasses) -> ThreatSummary {
    ThreatSummary {
        mine,
        theirs,
        my_open_threes: mine.count_spec(LineThreat::OpenThree) as u8,
        my_open_fours: mine.count_spec(LineThreat::OpenFour) as u8,
        their_open_threes: theirs.count_spec(LineThreat::OpenThree) as u8,
        their_open_fours: theirs.count_spec(LineThreat::OpenFour) as u8,
        critical: theirs.any_at_least_spec(LineThreat::BlockedFour),
    }
}

impl GameView {
    /// The classes of the four lines through `(x, y)` for `side`.
    pub open spec fn axis_classes(self, x: int, y: int, side: Side) -> AxisClasses {
        AxisClasses {
            horizontal: self.line_class(x, y, 1, 0, side),
            vertical: self.line_class(x, y, 0, 1, side),
            diagonal: self.line_class(x, y, 1, 1, side),
            anti_diagonal: self.line_class(x, y, 1, -1, side),
        }
    }

    /// What playing on `(x, y)` would mean for both sides.
    pub open spec fn threats(self, x: int, y: int) -> ThreatSummary {
        summarize(self.axis_classes(x, y, Side::Mine), self.axis_classes(x, y, Side::Opponent))
    }
}

impl GameState {
    /// The classes of the four lines through `(x, y)` for the engine
    /// (`is_my`) or for the other player.
    pub fn axis_classes(&self, x: usize, y: usize, is_my: bool) -> (c: AxisClasses)
        requires
            self.wf(),
            in_board(x as int, y as int),
        ensures
            c == self@.axis_classes(x as int, y as int, side_of(is_my)),
    {
        AxisClasses {
            horizontal: self.evaluate_line_type(x, y, 1, 0, is_my),
            vertical: self.evaluate_line_type(x, y, 0, 1, is_my),
            diagonal: self.evaluate_line_type(x, y, 1, 1, is_my),
            anti_diagonal: self.evaluate_line_type(x, y, 1, -1, is_my),
        }
    }

    /// What playing on `(x, y)` would mean for both sides.
    pub fn threats(&self, x: usize, y: usize) -> (t: ThreatSummary)
        requires
            self.wf(),
            in_board(x as int, y as int),
        ensures
            t == self@.threats(x as int, y as int),
    {
        let mine = self.axis_classes(x, y, true);
        let theirs = self.axis_classes(x, y, false);
        ThreatSummary {
            mine,
            theirs,
            my_open_threes: mine.count(LineThreat::OpenThree),
            my_open_fours: mine.count(LineThreat::OpenFour),
            their_open_threes: theirs.count(LineThreat::OpenThree),
            their_open_fours: theirs.count(LineThreat::OpenFour),
            critical: theirs.any_at_least(LineThreat::BlockedFour),
        }
    }
}

} // verus!
