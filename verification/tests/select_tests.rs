use gomoku_engine::board::Side;
use gomoku_engine::book::OpeningBook;
use gomoku_engine::game::GameState;
use gomoku_engine::pattern::LineThreat;
use gomoku_engine::select::is_decisive;
use rand::rngs::StdRng;
use rand::SeedableRng;

fn setup(mut s: GameState, mine: &[(usize, usize)], theirs: &[(usize, usize)]) -> GameState {
    for &(x, y) in mine {
        assert!(s.play(x, y, Side::Mine));
    }
    for &(x, y) in theirs {
        assert!(s.play(x, y, Side::Opponent));
    }
    s
}

fn book_of(lines: &[Vec<(usize, usize)>]) -> OpeningBook {
    let mut book = OpeningBook::new();
    for l in lines {
        assert!(book.add_line(l.clone()));
    }
    book
}

#[test]
fn decisive_threats() {
    let s = setup(GameState::new(), &[(10, 10), (11, 10), (12, 10), (13, 10)], &[]);
    assert!(is_decisive(&s.threats(14, 10)));
    let s = setup(GameState::new(), &[(14, 15), (16, 15), (15, 14), (15, 16)], &[]);
    assert!(is_decisive(&s.threats(15, 15)));
    let s = setup(GameState::new(), &[(13, 15), (14, 15), (16, 15), (15, 14), (15, 16)], &[]);
    assert!(is_decisive(&s.threats(15, 15)));
    // One open four alone, or one open three alone, decides nothing.
    let s = setup(GameState::new(), &[(13, 15), (14, 15), (16, 15)], &[]);
    assert_eq!(s.threats(15, 15).my_open_fours, 1);
    assert!(!is_decisive(&s.threats(15, 15)));
    let s = setup(GameState::new(), &[(14, 15), (16, 15)], &[]);
    assert!(!is_decisive(&s.threats(15, 15)));
    // Threats of the other player decide nothing for the engine.
    let s = setup(GameState::new(), &[], &[(10, 10), (11, 10), (12, 10), (13, 10)]);
    assert_eq!(s.threats(14, 10).theirs.horizontal, LineThreat::Five);
    assert!(!is_decisive(&s.threats(14, 10)));
}

#[test]
fn no_forcing_move_on_a_quiet_board() {
    assert_eq!(GameState::new().forcing_move(), None);
    let s = setup(GameState::new(), &[(15, 15)], &[(16, 15)]);
    assert_eq!(s.forcing_move(), None);
}

#[test]
fn immediate_win_is_selected_over_higher_scores_elsewhere() {
    // Four of the engine in row 10, closed on the left, open on the right.
    // The other player has an open four further down that would score high.
    let mine = [(10, 10), (11, 10), (12, 10), (13, 10)];
    let theirs = [(9, 10), (5, 20), (6, 20), (7, 20), (8, 20)];
    let s = setup(GameState::new(), &mine, &theirs);
    assert_eq!(s.forcing_move(), Some((14, 10)));
    for seed in 0..8 {
        let mut rng = StdRng::seed_from_u64(seed);
        assert_eq!(s.find_best_move(&mut rng), Some((14, 10)));
        assert_eq!(s.select_move(&OpeningBook::new(), &mut rng), Some((14, 10)));
    }
}

#[test]
fn immediate_win_is_selected_on_every_axis() {
    for &(dx, dy) in [(1isize, 0isize), (0, 1), (1, 1), (1, -1)].iter() {
        let mut s = GameState::new();
        for k in 1..=4isize {
            assert!(s.play((12 + k * dx) as usize, (15 + k * dy) as usize, Side::Mine));
        }
        assert!(s.play((12 + 5 * dx) as usize, (15 + 5 * dy) as usize, Side::Opponent));
        let mut rng = StdRng::seed_from_u64(3);
        assert_eq!(s.find_best_move(&mut rng), Some((12, 15)));
    }
}

#[test]
fn first_forcing_cell_in_row_order_wins() {
    // Both ends of the four complete a five; the end in the earlier row comes first.
    let s = setup(GameState::new(), &[(10, 10), (10, 11), (10, 12), (10, 13)], &[]);
    assert_eq!(s.forcing_move(), Some((10, 9)));
    // In one row the smaller column comes first.
    let s = setup(GameState::new(), &[(10, 10), (11, 10), (12, 10), (13, 10)], &[]);
    assert_eq!(s.forcing_move(), Some((9, 10)));
    // A double three in an earlier row comes before a five in a later row.
    let mine = [(14, 5), (16, 5), (15, 4), (15, 6), (10, 20), (11, 20), (12, 20), (13, 20)];
    let s = setup(GameState::new(), &mine, &[]);
    assert_eq!(s.forcing_move(), Some((15, 5)));
}

#[test]
fn best_move_on_an_empty_board_is_the_centre() {
    let s = GameState::new();
    assert_eq!(s.best_moves(), vec![(15, 15)]);
    let mut rng = StdRng::seed_from_u64(1);
    assert_eq!(s.find_best_move(&mut rng), Some((15, 15)));
}

#[test]
fn best_moves_lists_all_ties_in_row_order() {
    let s = setup(GameState::new(), &[(15, 15)], &[]);
    // Every neighbour makes a two; the four at distance 1 tie.
    assert_eq!(s.best_moves(), vec![(15, 14), (14, 15), (16, 15), (15, 16)]);
    let s = setup(GameState::new(), &[(15, 15)], &[(16, 15)]);
    assert_eq!(s.best_moves(), vec![(15, 14), (15, 16)]);
}

#[test]
fn random_choice_stays_among_the_best_moves() {
    let s = setup(GameState::new(), &[(15, 15)], &[]);
    let best = s.best_moves();
    let mut seen = Vec::new();
    for seed in 0..64 {
        let mut rng = StdRng::seed_from_u64(seed);
        let m = s.find_best_move(&mut rng).unwrap();
        assert!(best.contains(&m));
        if !seen.contains(&m) {
            seen.push(m);
        }
    }
    // A choice that always gave the first entry would not be a choice.
    assert!(seen.len() > 1);
}

#[test]
fn same_seed_gives_the_same_move() {
    let s = setup(GameState::new(), &[(15, 15)], &[]);
    for seed in 0..8 {
        let a = s.find_best_move(&mut StdRng::seed_from_u64(seed));
        let b = s.find_best_move(&mut StdRng::seed_from_u64(seed));
        assert_eq!(a, b);
    }
}

#[test]
fn blocking_a_five_beats_every_quiet_gain() {
    let s = setup(GameState::new(), &[(15, 15), (16, 16)], &[(3, 3), (4, 3), (5, 3), (6, 3), (2, 3)]);
    let mut engine = s;
    assert!(engine.play(20, 20, Side::Mine));
    assert_eq!(engine.best_moves(), vec![(7, 3)]);
    assert_eq!(engine.find_best_move(&mut StdRng::seed_from_u64(5)), Some((7, 3)));
}

#[test]
fn constrained_engine_skips_forbidden_cells() {
    let stones = [(14, 15), (16, 15), (15, 14), (15, 16)];
    let free = setup(GameState::new(), &stones, &[]);
    assert_eq!(free.forcing_move(), Some((15, 15)));
    let held = setup(GameState::new_constrained(), &stones, &[]);
    assert_eq!(held.forcing_move(), None);
    assert!(!held.best_moves().contains(&(15, 15)));
    for seed in 0..16 {
        let m = held.find_best_move(&mut StdRng::seed_from_u64(seed)).unwrap();
        assert_ne!(m, (15, 15));
        assert!(held.is_candidate(m.0, m.1));
    }
}

#[test]
fn constrained_engine_never_makes_six() {
    let stones = [(10, 10), (11, 10), (12, 10), (14, 10), (15, 10)];
    let free = setup(GameState::new(), &stones, &[]);
    assert_eq!(free.forcing_move(), Some((13, 10)));
    let held = setup(GameState::new_constrained(), &stones, &[]);
    for seed in 0..16 {
        let m = held.find_best_move(&mut StdRng::seed_from_u64(seed)).unwrap();
        assert_ne!(m, (13, 10));
    }
    assert!(!held.best_moves().contains(&(13, 10)));
}

#[test]
fn constrained_engine_still_takes_an_exact_five() {
    let held = setup(GameState::new_constrained(), &[(10, 10), (11, 10), (12, 10), (13, 10)], &[(9, 10)]);
    assert_eq!(held.forcing_move(), Some((14, 10)));
    assert_eq!(held.find_best_move(&mut StdRng::seed_from_u64(2)), Some((14, 10)));
}

#[test]
fn accept_book_move_keeps_only_candidates() {
    let s = setup(GameState::new(), &[(15, 15)], &[(16, 15)]);
    assert_eq!(s.accept_book_move(None), None);
    assert_eq!(s.accept_book_move(Some((14, 14))), Some((14, 14)));
    assert_eq!(s.accept_book_move(Some((15, 15))), None);
    assert_eq!(s.accept_book_move(Some((16, 15))), None);
    assert_eq!(s.accept_book_move(Some((31, 2))), None);
    let held = setup(GameState::new_constrained(), &[(14, 15), (16, 15), (15, 14), (15, 16)], &[]);
    assert_eq!(held.accept_book_move(Some((15, 15))), None);
    assert_eq!(held.accept_book_move(Some((3, 3))), Some((3, 3)));
}

#[test]
fn book_move_follows_the_single_matching_line() {
    let book = book_of(&[
        vec![(15, 15), (16, 15), (3, 3)],
        vec![(15, 15), (15, 16), (16, 16)],
    ]);
    let s = setup(GameState::new(), &[(15, 15)], &[(16, 15)]);
    for seed in 0..16 {
        let mut rng = StdRng::seed_from_u64(seed);
        assert_eq!(s.book_move(&book, &mut rng), Some((3, 3)));
        assert_eq!(s.select_move(&book, &mut rng), Some((3, 3)));
    }
}

#[test]
fn book_move_picks_among_several_matching_lines() {
    let book = book_of(&[
        vec![(15, 15), (16, 15), (3, 3)],
        vec![(15, 15), (16, 15), (4, 4)],
        vec![(15, 15), (15, 16), (5, 5)],
    ]);
    let s = setup(GameState::new(), &[(15, 15)], &[(16, 15)]);
    let mut seen = Vec::new();
    for seed in 0..64 {
        let m = s.book_move(&book, &mut StdRng::seed_from_u64(seed)).unwrap();
        assert!(m == (3, 3) || m == (4, 4));
        if !seen.contains(&m) {
            seen.push(m);
        }
    }
    assert_eq!(seen.len(), 2);
}

#[test]
fn occupied_book_move_falls_through_to_scoring() {
    // The book's next move is the cell that the other player has taken.
    let book = book_of(&[vec![(15, 15), (16, 15), (16, 15)]]);
    let s = setup(GameState::new(), &[(15, 15)], &[(16, 15)]);
    for seed in 0..8 {
        let mut rng = StdRng::seed_from_u64(seed);
        assert_eq!(s.book_move(&book, &mut rng), None);
        let m = s.select_move(&book, &mut rng).unwrap();
        assert!(m == (15, 14) || m == (15, 16));
    }
}

#[test]
fn book_without_match_falls_through_to_scoring() {
    let book = book_of(&[vec![(15, 15), (14, 14), (3, 3)]]);
    let s = setup(GameState::new(), &[(15, 15)], &[(16, 15)]);
    let mut rng = StdRng::seed_from_u64(9);
    assert_eq!(s.book_move(&book, &mut rng), None);
    let m = s.select_move(&book, &mut rng).unwrap();
    assert!(m == (15, 14) || m == (15, 16));
}

#[test]
fn book_comes_before_an_immediate_win() {
    let book = book_of(&[vec![(15, 15), (16, 15), (17, 15), (18, 15), (2, 2)]]);
    let mut s = GameState::new();
    for &(x, y) in [(15, 15), (16, 15), (17, 15), (18, 15)].iter() {
        assert!(s.play(x, y, Side::Mine));
    }
    assert_eq!(s.forcing_move(), Some((14, 15)));
    assert_eq!(s.select_move(&book, &mut StdRng::seed_from_u64(0)), Some((2, 2)));
}

#[test]
fn full_board_gives_no_move() {
    let mut s = GameState::new();
    for y in 0..31 {
        for x in 0..31 {
            let side = if (x + y) % 2 == 0 { Side::Mine } else { Side::Opponent };
            assert!(s.play(x, y, side));
        }
    }
    assert_eq!(s.forcing_move(), None);
    assert_eq!(s.best_moves(), vec![]);
    let mut rng = StdRng::seed_from_u64(0);
    assert_eq!(s.find_best_move(&mut rng), None);
    assert_eq!(s.select_move(&OpeningBook::new(), &mut rng), None);
}

#[test]
fn last_free_cell_is_selected() {
    let mut s = GameState::new();
    for y in 0..31 {
        for x in 0..31 {
            if (x, y) != (30, 30) {
                let side = if (x / 2 + y) % 2 == 0 { Side::Mine } else { Side::Opponent };
                assert!(s.play(x, y, side));
            }
        }
    }
    assert_eq!(s.best_moves(), vec![(30, 30)]);
    assert_eq!(s.find_best_move(&mut StdRng::seed_from_u64(4)), Some((30, 30)));
}
