use gomoku_engine::board::Side;
use gomoku_engine::game::GameState;
use gomoku_engine::pattern::LineThreat;
use gomoku_engine::score::{
    attack_bonus, attack_sum, combination_sum, defence_bonus, defence_sum, distance_to_center,
    score, MAX_CENTER_DISTANCE,
};
use gomoku_engine::threats::{AxisClasses, ThreatSummary};

const CLASSES: [LineThreat; 7] = [
    LineThreat::Other,
    LineThreat::Two,
    LineThreat::BlockedThree,
    LineThreat::OpenThree,
    LineThreat::BlockedFour,
    LineThreat::OpenFour,
    LineThreat::Five,
];

fn quiet() -> AxisClasses {
    AxisClasses {
        horizontal: LineThreat::Other,
        vertical: LineThreat::Other,
        diagonal: LineThreat::Other,
        anti_diagonal: LineThreat::Other,
    }
}

fn summary(mine: AxisClasses, theirs: AxisClasses) -> ThreatSummary {
    ThreatSummary {
        mine,
        theirs,
        my_open_threes: mine.count(LineThreat::OpenThree),
        my_open_fours: mine.count(LineThreat::OpenFour),
        their_open_threes: theirs.count(LineThreat::OpenThree),
        their_open_fours: theirs.count(LineThreat::OpenFour),
        critical: theirs.any_at_least(LineThreat::BlockedFour),
    }
}

#[test]
fn attack_bonus_values() {
    assert_eq!(attack_bonus(LineThreat::Five), 1_000_000);
    assert_eq!(attack_bonus(LineThreat::OpenFour), 80_000);
    assert_eq!(attack_bonus(LineThreat::BlockedFour), 12_000);
    assert_eq!(attack_bonus(LineThreat::OpenThree), 3_000);
    assert_eq!(attack_bonus(LineThreat::BlockedThree), 500);
    assert_eq!(attack_bonus(LineThreat::Two), 100);
    assert_eq!(attack_bonus(LineThreat::Other), 0);
}

#[test]
fn defence_bonus_values() {
    assert_eq!(defence_bonus(LineThreat::Five), 900_000);
    assert_eq!(defence_bonus(LineThreat::OpenFour), 55_000);
    assert_eq!(defence_bonus(LineThreat::BlockedFour), 12_000);
    assert_eq!(defence_bonus(LineThreat::OpenThree), 3_000);
    assert_eq!(defence_bonus(LineThreat::BlockedThree), 1_000);
    assert_eq!(defence_bonus(LineThreat::Two), 200);
    assert_eq!(defence_bonus(LineThreat::Other), 0);
}

#[test]
fn stronger_class_earns_more() {
    for w in CLASSES.windows(2) {
        assert!(attack_bonus(w[1]) > attack_bonus(w[0]));
        assert!(defence_bonus(w[1]) > defence_bonus(w[0]));
    }
}

#[test]
fn open_four_outranks_blocked_four_anywhere_on_the_board() {
    let attack_gap = attack_bonus(LineThreat::OpenFour) - attack_bonus(LineThreat::BlockedFour);
    let defence_gap = defence_bonus(LineThreat::OpenFour) - defence_bonus(LineThreat::BlockedFour);
    assert!(attack_gap > MAX_CENTER_DISTANCE);
    assert!(defence_gap > MAX_CENTER_DISTANCE);
    let mut open = quiet();
    open.vertical = LineThreat::OpenFour;
    let mut blocked = quiet();
    blocked.vertical = LineThreat::BlockedFour;
    // The open four in the far corner against the blocked four in the centre.
    let far = score(&summary(open, quiet()), 0, 0);
    let near = score(&summary(blocked, quiet()), 15, 15);
    assert_eq!(far, 80_000 - 30);
    assert_eq!(near, 12_000);
    assert!(far > near);
}

#[test]
fn distance_to_center_is_manhattan() {
    assert_eq!(distance_to_center(15, 15), 0);
    assert_eq!(distance_to_center(0, 0), 30);
    assert_eq!(distance_to_center(30, 30), 30);
    assert_eq!(distance_to_center(30, 0), 30);
    assert_eq!(distance_to_center(16, 15), 1);
    assert_eq!(distance_to_center(14, 17), 3);
    assert_eq!(MAX_CENTER_DISTANCE, 30);
}

#[test]
fn sums_add_the_four_axes() {
    let c = AxisClasses {
        horizontal: LineThreat::Five,
        vertical: LineThreat::OpenFour,
        diagonal: LineThreat::BlockedThree,
        anti_diagonal: LineThreat::Two,
    };
    assert_eq!(attack_sum(&c), 1_000_000 + 80_000 + 500 + 100);
    assert_eq!(defence_sum(&c), 900_000 + 55_000 + 1_000 + 200);
    assert_eq!(attack_sum(&quiet()), 0);
    assert_eq!(defence_sum(&quiet()), 0);
}

#[test]
fn combination_bonuses() {
    let mut t = summary(quiet(), quiet());
    assert_eq!(combination_sum(&t), 0);
    t.my_open_fours = 1;
    assert_eq!(combination_sum(&t), 0);
    t.my_open_threes = 1;
    assert_eq!(combination_sum(&t), 150_000);
    t.my_open_threes = 2;
    assert_eq!(combination_sum(&t), 160_000);
    t.my_open_fours = 0;
    assert_eq!(combination_sum(&t), 10_000);
    t.their_open_threes = 2;
    assert_eq!(combination_sum(&t), 17_000);
    t.their_open_fours = 1;
    assert_eq!(combination_sum(&t), 117_000);
    t.my_open_threes = 0;
    t.their_open_threes = 1;
    assert_eq!(combination_sum(&t), 100_000);
}

#[test]
fn score_is_bonuses_less_distance() {
    let mine = AxisClasses {
        horizontal: LineThreat::OpenFour,
        vertical: LineThreat::OpenThree,
        diagonal: LineThreat::Other,
        anti_diagonal: LineThreat::Two,
    };
    let theirs = AxisClasses {
        horizontal: LineThreat::Other,
        vertical: LineThreat::OpenThree,
        diagonal: LineThreat::OpenThree,
        anti_diagonal: LineThreat::BlockedFour,
    };
    let t = summary(mine, theirs);
    let expected = (80_000 + 3_000 + 100) + (3_000 + 3_000 + 12_000) + 150_000 + 7_000 - 5;
    assert_eq!(score(&t, 12, 17), expected);
}

#[test]
fn largest_score_does_not_overflow() {
    let top = AxisClasses {
        horizontal: LineThreat::Five,
        vertical: LineThreat::Five,
        diagonal: LineThreat::Five,
        anti_diagonal: LineThreat::Five,
    };
    let mut t = summary(top, top);
    t.my_open_threes = 4;
    t.my_open_fours = 4;
    t.their_open_threes = 4;
    t.their_open_fours = 4;
    assert_eq!(score(&t, 15, 15), 4_000_000 + 3_600_000 + 267_000);
}

#[test]
fn score_on_an_empty_board_is_minus_the_distance() {
    let s = GameState::new();
    assert_eq!(s.score_cell(15, 15), 0);
    assert_eq!(s.score_cell(0, 0), -30);
    assert_eq!(s.score_cell(20, 13), -7);
}

#[test]
fn score_cell_after_the_first_two_moves() {
    let mut s = GameState::new();
    assert!(s.play(15, 15, Side::Mine));
    assert!(s.play(16, 15, Side::Opponent));
    // Own two along the column, the other player's two along a diagonal.
    assert_eq!(s.score_cell(15, 14), 100 + 200 - 1);
    assert_eq!(s.score_cell(15, 16), 100 + 200 - 1);
    assert_eq!(s.score_cell(16, 14), 100 + 200 - 2);
    assert_eq!(s.score_cell(16, 16), 100 + 200 - 2);
    assert_eq!(s.score_cell(14, 15), 100 - 1);
    assert_eq!(s.score_cell(17, 15), 200 - 2);
    assert_eq!(s.score_cell(14, 14), 100 - 2);
    assert_eq!(s.score_cell(17, 16), 200 - 3);
    assert_eq!(s.score_cell(2, 2), -26);
}

#[test]
fn score_cell_agrees_with_score_of_threats() {
    let mut s = GameState::new();
    for &(x, y) in [(14, 15), (16, 15), (15, 14), (15, 16)].iter() {
        assert!(s.play(x, y, Side::Mine));
    }
    for &(x, y) in [(16, 16), (17, 17), (18, 18), (19, 19)].iter() {
        assert!(s.play(x, y, Side::Opponent));
    }
    let t = s.threats(15, 15);
    assert_eq!(s.score_cell(15, 15), score(&t, 15, 15));
    // Two open threes of the engine, a five denied to the other player.
    assert_eq!(s.score_cell(15, 15), 3_000 + 3_000 + 900_000 + 10_000);
}
