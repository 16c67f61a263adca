//! The scorer: how much a cell is worth to the engine.
//!
//! Attack counts a little more than defence for the strong classes; for a
//! blocked three and for a two, stopping the other player counts double.

use vstd::prelude::*;
use crate::board::{in_board, CENTER};
use crate::game::{GameState, GameView};
use crate::pattern::LineThreat;
use crate::threats::{AxisClasses, ThreatSummary};

verus! {

/// The largest distance that a cell of the board has from the centre.
pub const MAX_CENTER_DISTANCE: i32 = 30;

/// What a line of the class is worth to the engine when it is its own.
pub open spec fn attack_bonus_spec(class: LineThreat) -> int {
    match class {
        LineThreat::Five => 1_000_000,
        LineThreat::OpenFour => 80_000,
        LineThreat::BlockedFour => 12_000,
        LineThreat::OpenThree => 3_000,
        LineThreat::BlockedThree => 500,
        LineThreat::Two => 100,
        LineThreat::Other => 0,
    }
}

/// What it is worth to the engine to deny the other player a line of the
/// class.
pub open spec fn defence_bonus_spec(class: LineThreat) -> int {
    match class {
        LineThreat::Five => 900_000,
        LineThreat::OpenFour => 55_000,
        LineThreat::BlockedFour => 12_000,
        LineThreat::OpenThree => 3_000,
        LineThreat::BlockedThree => 1_000,
        LineThreat::Two => 200,
        LineThreat::Other => 0,
    }
}

/// What a line of the class is worth to the engine when it is its own.
pub fn attack_bonus(class: LineThreat) -> (b: i32)
    ensures
        b == attack_bonus_spec(class),
        0 <= b <= 1_000_000,
{
    match class {
        LineThreat::Five => 1_000_000,
        LineThreat::OpenFour => 80_000,
        LineThreat::BlockedFour => 12_000,
        LineThreat::OpenThree => 3_000,
        LineThreat::BlockedThree => 500,
        LineThreat::Two => 100,
        LineThreat::Other => 0,
    }
}

/// What it is worth to the engine to deny the other player a line of the
/// class.
pub fn defence_bonus(class: LineThreat) -> (b: i32)
    ensures
        b == defence_bonus_spec(class),
        0 <= b <= 900_000,
{
    match class {
        LineThreat::Five => 900_000,
        LineThreat::OpenFour => 55_000,
        LineThreat::BlockedFour => 12_000,
        LineThreat::OpenThree => 3_000,
        LineThreat::BlockedThree => 1_000,
        LineThreat::Two => 200,
        LineThreat::Other => 0,
    }
}

/// The attack bonuses of the four lines together.
pub open spec fn attack_total(c: AxisClasses) -> int {
    attack_bonus_spec(c.horizontal) + attack_bonus_spec(c.vertical) + attack_bonus_spec(c.diagonal)
        + attack_bonus_spec(c.anti_diagonal)
}

/// The defence bonuses of the four lines together.
pub open spec fn defence_total(c: AxisClasses) -> int {
    defence_bonus_spec(c.horizontal) + defence_bonus_spec(c.vertical) + defence_bonus_spec(
        c.diagonal,
    ) + defence_bonus_spec(c.anti_diagonal)
}

/// The bonuses for two threats at once: an open four with an open three, and
/// two open threes, for the engine and against the other player.
pub open spec fn combination_bonus(t: ThreatSummary) -> int {
    (if t.my_open_fours > 0 && t.my_open_threes > 0 {
        150_000int
    } else {
        0
    }) + (if t.their_open_fours > 0 && t.their_open_threes > 0 {
        100_000int
    } else {
        0
    }) + (if t.my_open_threes >= 2 {
        10_000int
    } else {
        0
    }) + (if t.their_open_threes >= 2 {
        7_000int
    } else {
        0
    })
}

/// The number of steps along rows and columns from `(x, y)` to the centre.
pub open spec fn center_distance(x: int, y: int) -> int {
    (if x >= CENTER {
        x - CENTER
    } else {
        CENTER - x
    }) + (if y >= CENTER {
        y - CENTER
    } else {
        CENTER - y
    })
}

/// The score of the cell `(x, y)` whose threats are `t`: the bonuses of its
/// lines and of their combinations, less the distance to the centre.
pub open spec fn score_of(t: ThreatSummary, x: int, y: int) -> int {
    attack_total(t.mine) + defence_total(t.theirs) + combination_bonus(t) - center_distance(x, y)
}

/// The attack bonuses of the four lines together.
pub fn attack_sum(c: &AxisClasses) -> (s: i32)
    ensures
        s == attack_total(*c),
        0 <= s <= 4_000_000,
{
    let h = attack_bonus(c.horizontal);
    let v = attack_bonus(c.vertical);
    let d = attack_bonus(c.diagonal);
    let a = attack_bonus(c.anti_diagonal);
    h + v + d + a
}

/// The defence bonuses of the four lines together.
pub fn defence_sum(c: &AxisClasses) -> (s: i32)
    ensures
        s == defence_total(*c),
        0 <= s <= 3_600_000,
{
    let h = defence_bonus(c.horizontal);
    let v = defence_bonus(c.vertical);
    let d = defence_bonus(c.diagonal);
    let a = defence_bonus(c.anti_diagonal);
    h + v + d + a
}

/// The bonuses for two threats at once.
pub fn combination_sum(t: &ThreatSummary) -> (s: i32)
    ensures
        s == combination_bonus(*t),
        0 <= s <= 267_000,
{
    let mut s: i32 = 0;
    if t.my_open_fours > 0 && t.my_open_threes > 0 {
        s += 150_000;
    }
    if t.their_open_fours > 0 && t.their_open_threes > 0 {
        s += 100_000;
    }
    if t.my_open_threes >= 2 {
        s += 10_000;
    }
    if t.their_open_threes >= 2 {
        s += 7_000;
    }
    s
}

/// The number of steps along rows and columns from `(x, y)` to the centre.
pub fn distance_to_center(x: usize, y: usize) -> (d: i32)
    requires
        in_board(x as int, y as int),
    ensures
        d == center_distance(x as int, y as int),
        0 <= d <= MAX_CENTER_DISTANCE,
{
    let dx: usize = if x >= CENTER {
        x - CENTER
    } else {
        CENTER - x
    };
    let dy: usize = if y >= CENTER {
        y - CENTER
    } else {
        CENTER - y
    };
    (dx + dy) as i32
}

/// The score of the cell `(x, y)` whose threats are `t`.
pub fn score(t: &ThreatSummary, x: usize, y: usize) -> (s: i32)
    requires
        in_board(x as int, y as int),
    ensures
        s == score_of(*t, x as int, y as int),
        -MAX_CENTER_DISTANCE <= s <= 7_867_000,
{
    let attack = attack_sum(&t.mine);
    let defence = defence_sum(&t.theirs);
    let combined = combination_sum(t);
    let distance = distance_to_center(x, y);
    attack + defence + combined - distance
}

impl GameView {
    /// The score of the cell `(x, y)`.
    pub open spec fn score(self, x: int, y: int) -> int {
        score_of(self.threats(x, y), x, y)
    }
}

impl GameState {
    /// The score of the cell `(x, y)`.
    pub fn score_cell(&self, x: usize, y: usize) -> (s: i32)
        requires
            self.wf(),
            in_board(x as int, y as int),
        ensures
            s == self@.score(x as int, y as int),
            -MAX_CENTER_DISTANCE <= s <= 7_867_000,
    {
        let t = self.threats(x, y);
        score(&t, x, y)
    }
}

/// A stronger class always earns more, for attack and for defence alike.
pub proof fn lemma_bonus_grows_with_class(a: LineThreat, b: LineThreat)
    requires
        a.rank_spec() > b.rank_spec(),
    ensures
        attack_bonus_spec(a) > attack_bonus_spec(b),
        defence_bonus_spec(a) > defence_bonus_spec(b),
{
}

/// An open four outranks a blocked four wherever the two cells lie: the gap
/// between the bonuses is wider than any difference in distance to the
/// centre.
pub proof fn lemma_open_four_outranks_blocked_four(x1: int, y1: int, x2: int, y2: int)
    requires
        in_board(x1, y1),
        in_board(x2, y2),
    ensures
        attack_bonus_spec(LineThreat::OpenFour) - center_distance(x1, y1) > attack_bonus_spec(
            LineThreat::BlockedFour,
        ) - center_distance(x2, y2),
        defence_bonus_spec(LineThreat::OpenFour) - center_distance(x1, y1) > defence_bonus_spec(
            LineThreat::BlockedFour,
        ) - center_distance(x2, y2),
        0 <= center_distance(x1, y1) <= MAX_CENTER_DISTANCE,
{
}

} // verus!
