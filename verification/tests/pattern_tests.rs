use gomoku_engine::pattern::{classify_line, contains_pattern, matches_at, LineThreat, Symbol};

fn line(text: &str) -> Vec<Symbol> {
    text.chars()
        .map(|c| match c {
            'X' => Symbol::Own,
            '.' => Symbol::Free,
            'B' => Symbol::Block,
            other => panic!("no symbol for {}", other),
        })
        .collect()
}

fn class_of(text: &str) -> LineThreat {
    classify_line(&line(text))
}

#[test]
fn five_in_a_row_is_five() {
    assert_eq!(class_of("..XXXXX.."), LineThreat::Five);
    assert_eq!(class_of("XXXXXBBBB"), LineThreat::Five);
    assert_eq!(class_of("BBBBXXXXX"), LineThreat::Five);
    assert_eq!(class_of("BXXXXXXB."), LineThreat::Five);
}

#[test]
fn five_wins_over_weaker_patterns_in_the_same_line() {
    // The line also holds "XXXX.", ".XXXX", "XXX." and "XX".
    assert_eq!(class_of(".XXXXX..."), LineThreat::Five);
    // An open three beside the five.
    assert_eq!(class_of("XXXXX.XX."), LineThreat::Five);
    assert_eq!(class_of("XXXXXXXXX"), LineThreat::Five);
}

#[test]
fn five_is_found_at_every_position_of_the_window() {
    for start in 0..=4 {
        let mut l = vec![Symbol::Block; 9];
        for k in 0..5 {
            l[start + k] = Symbol::Own;
        }
        assert_eq!(classify_line(&l), LineThreat::Five);
    }
}

#[test]
fn open_four_needs_both_flanks_free() {
    assert_eq!(class_of("..XXXX..."), LineThreat::OpenFour);
    assert_eq!(class_of(".XXXX.BBB"), LineThreat::OpenFour);
    assert_eq!(class_of("B.XXXX.BB"), LineThreat::OpenFour);
}

#[test]
fn blocked_four_has_one_way_to_five() {
    assert_eq!(class_of("BXXXX...."), LineThreat::BlockedFour);
    assert_eq!(class_of("....XXXXB"), LineThreat::BlockedFour);
    assert_eq!(class_of("BBX.XXXBB"), LineThreat::BlockedFour);
    assert_eq!(class_of("BBXX.XXBB"), LineThreat::BlockedFour);
}

#[test]
fn four_closed_at_both_ends_is_only_a_two() {
    assert_eq!(class_of("BBXXXXBBB"), LineThreat::Two);
}

#[test]
fn three_then_gap_then_one_is_a_blocked_three() {
    // "XXX.X" is not among the four patterns of a blocked four.
    assert_eq!(class_of("BBXXX.XBB"), LineThreat::BlockedThree);
}

#[test]
fn open_three_needs_both_flanks_free() {
    assert_eq!(class_of("...XXX..."), LineThreat::OpenThree);
    assert_eq!(class_of("B.XXX.BBB"), LineThreat::OpenThree);
}

#[test]
fn blocked_three_patterns() {
    assert_eq!(class_of("BXXX.BBBB"), LineThreat::BlockedThree);
    assert_eq!(class_of("BBB.XXXBB"), LineThreat::BlockedThree);
    assert_eq!(class_of("BBX.XXBBB"), LineThreat::BlockedThree);
    assert_eq!(class_of("BBXX.XBBB"), LineThreat::BlockedThree);
}

#[test]
fn two_and_nothing() {
    assert_eq!(class_of("....XX..."), LineThreat::Two);
    assert_eq!(class_of("BBBXXBBBB"), LineThreat::Two);
    assert_eq!(class_of("....X...."), LineThreat::Other);
    assert_eq!(class_of("X.X.X.X.X"), LineThreat::Other);
    assert_eq!(class_of("........."), LineThreat::Other);
    assert_eq!(class_of("BBBBBBBBB"), LineThreat::Other);
}

#[test]
fn classification_takes_lines_of_any_length() {
    assert_eq!(class_of(""), LineThreat::Other);
    assert_eq!(class_of("X"), LineThreat::Other);
    assert_eq!(class_of("XX"), LineThreat::Two);
    assert_eq!(class_of("XXXXX"), LineThreat::Five);
    assert_eq!(class_of(".XXXX.XXXXX"), LineThreat::Five);
}

#[test]
fn contains_pattern_finds_first_middle_and_last() {
    let l = line("X..XX.BXX");
    assert!(contains_pattern(&l, &line("X..")));
    assert!(contains_pattern(&l, &line("XX.B")));
    assert!(contains_pattern(&l, &line("BXX")));
    assert!(contains_pattern(&l, &line("")));
    assert!(contains_pattern(&l, &l));
    assert!(!contains_pattern(&l, &line("XXX")));
    assert!(!contains_pattern(&l, &line("X..XX.BXX.")));
    assert!(!contains_pattern(&line(""), &line("X")));
}

#[test]
fn matches_at_checks_one_position() {
    let l = line(".XX.X");
    assert!(matches_at(&l, &line("XX"), 1));
    assert!(!matches_at(&l, &line("XX"), 0));
    assert!(!matches_at(&l, &line("XX"), 2));
    assert!(matches_at(&l, &line(".X"), 3));
    assert!(matches_at(&l, &line(""), 5));
}

#[test]
fn threat_classes_are_ordered_by_rank() {
    let order = [
        LineThreat::Other,
        LineThreat::Two,
        LineThreat::BlockedThree,
        LineThreat::OpenThree,
        LineThreat::BlockedFour,
        LineThreat::OpenFour,
        LineThreat::Five,
    ];
    for (i, a) in order.iter().enumerate() {
        assert_eq!(a.rank() as usize, i);
        for (j, b) in order.iter().enumerate() {
            assert_eq!(a.at_least(*b), i >= j);
        }
    }
}
