//! The move selector: a book move if the book offers one, else the first
//! forcing move, else one of the cells with the best score.

use vstd::prelude::*;
use crate::board::{in_board, Side, BOARD_SIZE};
use crate::book::{continuations, extends, lemma_single_line_gives_its_next_move, OpeningBook};
use crate::chance::choose_move;
use crate::forbidden::lemma_six_in_a_row_is_forbidden;
use crate::game::{GameState, GameView};
use crate::pattern::{LineThreat, Symbol};
use crate::scanner::{is_axis, line_through, OVERLINE_RADIUS};
use crate::score::MAX_CENTER_DISTANCE;
use crate::threats::ThreatSummary;

verus! {

/// Whether `(px, py)` comes before `(x, y)` when the board is read row after
/// row.
pub open spec fn precedes(px: int, py: int, x: int, y: int) -> bool {
    py < y || (py == y && px < x)
}

/// Whether the threats decide the game for the engine: a five, an open four
/// together with an open three, or two open threes.
pub open spec fn is_decisive_spec(t: ThreatSummary) -> bool {
    ||| t.mine.any_at_least_spec(LineThreat::Five)
    ||| t.my_open_fours >= 1 && t.my_open_threes >= 1
    ||| t.my_open_threes >= 2
}

/// Whether the threats decide the game for the engine.
pub fn is_decisive(t: &ThreatSummary) -> (b: bool)
    ensures
        b == is_decisive_spec(*t),
{
    t.mine.any_at_least(LineThreat::Five) || (t.my_open_fours >= 1 && t.my_open_threes >= 1)
        || t.my_open_threes >= 2
}

/// Whether every move of `moves` comes before the moves after it when the
/// board is read row after row.
pub open spec fn in_board_order(moves: Seq<(usize, usize)>) -> bool {
    forall|i: int, j: int|
        0 <= i < j < moves.len() ==> precedes(
            (#[trigger] moves[i]).0 as int,
            moves[i].1 as int,
            (#[trigger] moves[j]).0 as int,
            moves[j].1 as int,
        )
}

impl GameView {
    /// Whether the engine may play on `(x, y)` and decides the game there.
    pub open spec fn is_forcing(self, x: int, y: int) -> bool {
        self.is_candidate(x, y) && is_decisive_spec(self.threats(x, y))
    }

    /// Whether some cell is forcing.
    pub open spec fn has_forcing(self) -> bool {
        exists|x: int, y: int| #[trigger] self.is_forcing(x, y)
    }

    /// Whether `(x, y)` is the first forcing cell when the board is read row
    /// after row.
    pub open spec fn is_first_forcing(self, x: int, y: int) -> bool {
        &&& self.is_forcing(x, y)
        &&& forall|px: int, py: int| precedes(px, py, x, y) ==> !#[trigger] self.is_forcing(px, py)
    }

    /// Whether the engine may play on some cell.
    pub open spec fn has_candidate(self) -> bool {
        exists|x: int, y: int| #[trigger] self.is_candidate(x, y)
    }

    /// Whether the engine may play on `(x, y)` and no cell that it may play
    /// on has a higher score.
    pub open spec fn is_best(self, x: int, y: int) -> bool {
        &&& self.is_candidate(x, y)
        &&& forall|px: int, py: int| #[trigger]
            self.is_candidate(px, py) ==> self.score(px, py) <= self.score(x, y)
    }

    /// Whether scoring may end on `(x, y)`: the first forcing cell if there
    /// is one, else a cell with the best score.
    pub open spec fn may_score(self, x: int, y: int) -> bool {
        if self.has_forcing() {
            self.is_first_forcing(x, y)
        } else {
            self.is_best(x, y)
        }
    }

    /// Whether the book may give `(x, y)`: it offers the cell after the
    /// history, and the engine may play on it.
    pub open spec fn may_follow_book(self, lines: Seq<Seq<(usize, usize)>>, x: int, y: int) -> bool {
        &&& in_board(x, y)
        &&& continuations(lines, self.history).contains((x as usize, y as usize))
        &&& self.is_candidate(x, y)
    }

    /// Whether the book may fail to give a move: it offers none, or one that
    /// the engine may not play.
    pub open spec fn book_may_pass(self, lines: Seq<Seq<(usize, usize)>>) -> bool {
        let offered = continuations(lines, self.history);
        offered.len() == 0 || exists|i: int|
            0 <= i < offered.len() && !self.is_candidate(
                (#[trigger] offered[i]).0 as int,
                offered[i].1 as int,
            )
    }

    /// Whether the selector may end on `(x, y)`: a move of the book, or,
    /// where the book may pass, a move that scoring may end on.
    pub open spec fn may_select(self, lines: Seq<Seq<(usize, usize)>>, x: int, y: int) -> bool {
        self.may_follow_book(lines, x, y) || (self.book_may_pass(lines) && self.may_score(x, y))
    }
}

impl GameState {
    /// The first cell, row after row, that the engine may play on and that
    /// decides the game for it, if there is one.
    pub fn forcing_move(&self) -> (m: Option<(usize, usize)>)
        requires
            self.wf(),
        ensures
            match m {
                Some((x, y)) => self@.is_first_forcing(x as int, y as int),
                None => !self@.has_forcing(),
            },
    {
        let mut y: usize = 0;
        while y < BOARD_SIZE
            invariant
                y <= BOARD_SIZE,
                self.wf(),
                forall|px: int, py: int| py < y ==> !#[trigger] self@.is_forcing(px, py),
            decreases BOARD_SIZE - y,
        {
            let mut x: usize = 0;
            while x < BOARD_SIZE
                invariant
                    x <= BOARD_SIZE,
                    y < BOARD_SIZE,
                    self.wf(),
                    forall|px: int, py: int|
                        precedes(px, py, x as int, y as int) ==> !#[trigger] self@.is_forcing(px, py),
                decreases BOARD_SIZE - x,
            {
                if self.is_candidate(x, y) {
                    let t = self.threats(x, y);
                    if is_decisive(&t) {
                        return Some((x, y));
                    }
                }
                x += 1;
            }
            y += 1;
        }
        None
    }

    /// The cells with the best score among those that the engine may play
    /// on, row after row. The list is empty only if the engine may play
    /// nowhere.
    pub fn best_moves(&self) -> (best: Vec<(usize, usize)>)
        requires
            self.wf(),
        ensures
            forall|i: int|
                0 <= i < best@.len() ==> self@.is_best(
                    (#[trigger] best@[i]).0 as int,
                    best@[i].1 as int,
                ),
            forall|x: int, y: int| #[trigger]
                self@.is_best(x, y) ==> best@.contains((x as usize, y as usize)),
            in_board_order(best@),
            best@.len() == 0 <==> !self@.has_candidate(),
    {
        let ghost cand = |px: int, py: int| self@.is_candidate(px, py);
        let ghost val = |px: int, py: int| self@.score(px, py);
        let mut best: Vec<(usize, usize)> = Vec::new();
        let mut best_score: i32 = i32::MIN;
        let mut y: usize = 0;
        proof {
            lemma_scan_start(cand, val, best@, best_score as int);
        }
        while y < BOARD_SIZE
            invariant
                y <= BOARD_SIZE,
                self.wf(),
                cand == |px: int, py: int| self@.is_candidate(px, py),
                val == |px: int, py: int| self@.score(px, py),
                best_so_far(cand, val, best@, best_score as int, 0, y as int),
            decreases BOARD_SIZE - y,
        {
            let mut x: usize = 0;
            while x < BOARD_SIZE
                invariant
                    x <= BOARD_SIZE,
                    y < BOARD_SIZE,
                    self.wf(),
                    cand == |px: int, py: int| self@.is_candidate(px, py),
                    val == |px: int, py: int| self@.score(px, py),
                    best_so_far(cand, val, best@, best_score as int, x as int, y as int),
                decreases BOARD_SIZE - x,
            {
                let ghost before = best@;
                let ghost top = best_score as int;
                if self.is_candidate(x, y) {
                    let s = self.score_cell(x, y);
                    assert(cand(x as int, y as int) && val(x as int, y as int) == s);
                    if s > best_score {
                        best_score = s;
                        best.clear();
                        best.push((x, y));
                        proof {
                            assert(best@ =~= seq![(x, y)]);
                            lemma_scan_replace(cand, val, before, top, x as int, y as int);
                        }
                    } else if s == best_score {
                        best.push((x, y));
                        proof {
                            lemma_scan_append(cand, val, before, top, x as int, y as int);
                        }
                    } else {
                        proof {
                            lemma_scan_skip(cand, val, before, top, x as int, y as int);
                        }
                    }
                } else {
                    assert(!cand(x as int, y as int));
                    proof {
                        lemma_scan_skip(cand, val, before, top, x as int, y as int);
                    }
                }
                x += 1;
            }
            proof {
                assert forall|px: int, py: int| #[trigger] cand(px, py) implies in_board(px, py) by {}
                lemma_scan_next_row(cand, val, best@, best_score as int, y as int);
            }
            y += 1;
        }
        proof {
            assert forall|px: int, py: int| #[trigger] cand(px, py) implies in_board(px, py) by {}
            lemma_scan_done(cand, val, best@, best_score as int);
            assert forall|i: int| 0 <= i < best@.len() implies self@.is_best(
                (#[trigger] best@[i]).0 as int,
                best@[i].1 as int,
            ) by {
                let bx = best@[i].0 as int;
                let by = best@[i].1 as int;
                assert(cand(bx, by));
                assert forall|px: int, py: int| #[trigger]
                    self@.is_candidate(px, py) implies self@.score(px, py) <= self@.score(bx, by) by {
                    assert(cand(px, py));
                    assert(val(px, py) <= val(bx, by));
                }
            }
            assert forall|x: int, y: int| #[trigger] self@.is_best(x, y) implies best@.contains(
                (x as usize, y as usize),
            ) by {
                assert(cand(x, y));
                assert forall|px: int, py: int| #[trigger] cand(px, py) implies val(px, py) <= val(
                    x,
                    y,
                ) by {
                    assert(self@.is_candidate(px, py));
                }
            }
            if best@.len() > 0 {
                assert(cand(best@[0].0 as int, best@[0].1 as int));
                assert(self@.is_candidate(best@[0].0 as int, best@[0].1 as int));
            }
            if self@.has_candidate() {
                let (wx, wy) = choose|wx: int, wy: int| #[trigger] self@.is_candidate(wx, wy);
                assert(cand(wx, wy));
            }
        }
        best
    }

    /// The move that scoring gives: the first forcing cell if there is one,
    /// else one of the cells with the best score, picked at random. `None`
    /// only if the engine may play nowhere.
    pub fn find_best_move(&self, rng: &mut rand::rngs::StdRng) -> (m: Option<(usize, usize)>)
        requires
            self.wf(),
        ensures
            match m {
                Some((x, y)) => self@.may_score(x as int, y as int),
                None => !self@.has_candidate(),
            },
    {
        let forcing = self.forcing_move();
        if forcing.is_some() {
            proof {
                let (fx, fy) = forcing->0;
                assert(self@.is_forcing(fx as int, fy as int));
            }
            return forcing;
        }
        let best = self.best_moves();
        let picked = choose_move(&best, rng);
        proof {
            if picked is Some {
                let i = choose|i: int| 0 <= i < best@.len() && best@[i] == picked->0;
                assert(self@.is_best(best@[i].0 as int, best@[i].1 as int));
            }
        }
        picked
    }

    /// What becomes of the move that was picked from the book's offers: it
    /// stands if the engine may play on it, else the book gives nothing.
    pub fn accept_book_move(&self, picked: Option<(usize, usize)>) -> (m: Option<(usize, usize)>)
        requires
            self.wf(),
        ensures
            m == match picked {
                Some((x, y)) => if self@.is_candidate(x as int, y as int) {
                    picked
                } else {
                    None
                },
                None => None,
            },
    {
        match picked {
            Some((x, y)) => if self.is_candidate(x, y) {
                picked
            } else {
                None
            },
            None => None,
        }
    }

    /// The move that the book gives after the moves played so far: one of
    /// its offers, picked at random, if the engine may play on it.
    pub fn book_move(
        &self,
        book: &OpeningBook,
        rng: &mut rand::rngs::StdRng,
    ) -> (m: Option<(usize, usize)>)
        requires
            self.wf(),
            book.wf(),
        ensures
            match m {
                Some((x, y)) => self@.may_follow_book(book@, x as int, y as int),
                None => self@.book_may_pass(book@),
            },
    {
        let offered = book.continuations(self.history());
        let picked = choose_move(&offered, rng);
        let m = self.accept_book_move(picked);
        proof {
            if picked is Some {
                let i = choose|i: int| 0 <= i < offered@.len() && offered@[i] == picked->0;
                assert(offered@[i] == picked->0);
            }
        }
        m
    }

    /// The engine's next move: the book's move if it gives one, else the
    /// move that scoring gives. `None` only if the engine may play nowhere.
    pub fn select_move(
        &self,
        book: &OpeningBook,
        rng: &mut rand::rngs::StdRng,
    ) -> (m: Option<(usize, usize)>)
        requires
            self.wf(),
            book.wf(),
        ensures
            match m {
                Some((x, y)) => self@.may_select(book@, x as int, y as int) && self@.is_candidate(
                    x as int,
                    y as int,
                ),
                None => !self@.has_candidate(),
            },
    {
        let from_book = self.book_move(book, rng);
        if from_book.is_some() {
            return from_book;
        }
        let m = self.find_best_move(rng);
        proof {
            if m is Some {
                let (x, y) = m->0;
                if self@.has_forcing() {
                    assert(self@.is_forcing(x as int, y as int));
                }
            }
        }
        m
    }
}

/// Whatever the selector ends on is a cell that the engine may play on: an
/// empty cell of the board that, for a constrained engine, is not forbidden.
pub proof fn lemma_only_candidates_are_selected(
    v: GameView,
    lines: Seq<Seq<(usize, usize)>>,
    x: int,
    y: int,
)
    requires
        v.may_select(lines, x, y),
    ensures
        v.is_candidate(x, y),
        v.is_empty(x, y),
        in_board(x, y),
        v.constrained ==> !v.is_forbidden(x, y),
{
    if !v.may_follow_book(lines, x, y) && v.has_forcing() {
        assert(v.is_forcing(x, y));
    }
}

/// A constrained engine never ends on a cell where its stone would stand in
/// a run of six or more.
pub proof fn lemma_six_in_a_row_is_never_selected(
    v: GameView,
    lines: Seq<Seq<(usize, usize)>>,
    x: int,
    y: int,
    dx: int,
    dy: int,
    i: int,
)
    requires
        v.constrained,
        is_axis(dx, dy),
        0 <= i <= 5,
        forall|k: int|
            i <= k < i + 6 ==> line_through(v.cells, x, y, dx, dy, Side::Mine, OVERLINE_RADIUS as int)[k]
                == Symbol::Own,
    ensures
        !v.may_select(lines, x, y),
{
    lemma_six_in_a_row_is_forbidden(v, x, y, dx, dy, i);
    if v.may_select(lines, x, y) {
        lemma_only_candidates_are_selected(v, lines, x, y);
    }
}

/// Where the history is the beginning of exactly one line of the book, that
/// line is longer, and the engine may play on the line's next move, the
/// selector ends on that move whatever the random choice.
pub proof fn lemma_single_book_line_decides(
    v: GameView,
    lines: Seq<Seq<(usize, usize)>>,
    k: int,
    x: int,
    y: int,
)
    requires
        0 <= k < lines.len(),
        extends(lines[k], v.history),
        forall|i: int| 0 <= i < lines.len() && i != k ==> !extends(#[trigger] lines[i], v.history),
        v.is_candidate(
            lines[k][v.history.len() as int].0 as int,
            lines[k][v.history.len() as int].1 as int,
        ),
        v.may_select(lines, x, y),
    ensures
        x == lines[k][v.history.len() as int].0,
        y == lines[k][v.history.len() as int].1,
{
    lemma_single_line_gives_its_next_move(lines, v.history, k);
    let offered = continuations(lines, v.history);
    let next = lines[k][v.history.len() as int];
    assert(offered.len() == 1 && offered[0] == next);
    assert(!v.book_may_pass(lines));
    assert(v.may_follow_book(lines, x, y));
    let j = choose|j: int| 0 <= j < offered.len() && offered[j] == (x as usize, y as usize);
    assert(offered[j] == next);
}

/// Where the engine may complete a five on one cell only, and no other cell
/// is forcing, scoring ends on that cell whatever the scores of the others.
pub proof fn lemma_only_winning_cell_is_chosen(v: GameView, wx: int, wy: int, x: int, y: int)
    requires
        v.is_candidate(wx, wy),
        v.axis_classes(wx, wy, Side::Mine).any_at_least_spec(LineThreat::Five),
        forall|px: int, py: int| #[trigger] v.is_forcing(px, py) ==> px == wx && py == wy,
        v.may_score(x, y),
    ensures
        x == wx,
        y == wy,
{
    assert(v.is_forcing(wx, wy));
}

/// What holds of the list of best cells and of the best value once the cells
/// before `(x, y)` have been read: no cell read is worth more than `top`,
/// and `best` holds, in the board's order, the cells read that are worth
/// `top`.
#[verifier::opaque]
spec fn best_so_far(
    cand: spec_fn(int, int) -> bool,
    val: spec_fn(int, int) -> int,
    best: Seq<(usize, usize)>,
    top: int,
    x: int,
    y: int,
) -> bool {
    &&& forall|px: int, py: int|
        precedes(px, py, x, y) && #[trigger] cand(px, py) ==> val(px, py) <= top && best.len() > 0
    &&& forall|i: int|
        0 <= i < best.len() ==> {
            &&& precedes((#[trigger] best[i]).0 as int, best[i].1 as int, x, y)
            &&& cand(best[i].0 as int, best[i].1 as int)
            &&& val(best[i].0 as int, best[i].1 as int) == top
        }
    &&& forall|px: int, py: int|
        precedes(px, py, x, y) && #[trigger] cand(px, py) && val(px, py) == top ==> best.contains(
            (px as usize, py as usize),
        )
    &&& in_board_order(best)
    &&& best.len() > 0 || top < -MAX_CENTER_DISTANCE
}

/// Before any cell has been read, the empty list is the list of best cells.
proof fn lemma_scan_start(
    cand: spec_fn(int, int) -> bool,
    val: spec_fn(int, int) -> int,
    best: Seq<(usize, usize)>,
    top: int,
)
    requires
        best.len() == 0,
        top < -MAX_CENTER_DISTANCE,
        forall|px: int, py: int| #[trigger] cand(px, py) ==> in_board(px, py),
    ensures
        best_so_far(cand, val, best, top, 0, 0),
{
    reveal(best_so_far);
}

/// A cell that is no candidate, or is worth less than the best so far,
/// leaves the list as it is.
proof fn lemma_scan_skip(
    cand: spec_fn(int, int) -> bool,
    val: spec_fn(int, int) -> int,
    best: Seq<(usize, usize)>,
    top: int,
    x: int,
    y: int,
)
    requires
        best_so_far(cand, val, best, top, x, y),
        !cand(x, y) || (-MAX_CENTER_DISTANCE <= val(x, y) < top),
    ensures
        best_so_far(cand, val, best, top, x + 1, y),
{
    reveal(best_so_far);
}

/// A candidate that is worth more than the best so far becomes the only
/// entry of the list.
proof fn lemma_scan_replace(
    cand: spec_fn(int, int) -> bool,
    val: spec_fn(int, int) -> int,
    best: Seq<(usize, usize)>,
    top: int,
    x: int,
    y: int,
)
    requires
        best_so_far(cand, val, best, top, x, y),
        in_board(x, y),
        cand(x, y),
        val(x, y) > top,
    ensures
        best_so_far(cand, val, seq![(x as usize, y as usize)], val(x, y), x + 1, y),
{
    reveal(best_so_far);
    let only = seq![(x as usize, y as usize)];
    assert(only[0] == (x as usize, y as usize));
}

/// A candidate that is worth as much as the best so far joins the list at
/// its end.
proof fn lemma_scan_append(
    cand: spec_fn(int, int) -> bool,
    val: spec_fn(int, int) -> int,
    best: Seq<(usize, usize)>,
    top: int,
    x: int,
    y: int,
)
    requires
        best_so_far(cand, val, best, top, x, y),
        in_board(x, y),
        cand(x, y),
        val(x, y) == top,
    ensures
        best_so_far(cand, val, best.push((x as usize, y as usize)), top, x + 1, y),
{
    reveal(best_so_far);
    let more = best.push((x as usize, y as usize));
    assert(more[best.len() as int] == (x as usize, y as usize));
    assert forall|px: int, py: int|
        precedes(px, py, x + 1, y) && #[trigger] cand(px, py) && val(px, py) == top implies more.contains(
        (px as usize, py as usize),
    ) by {
        if precedes(px, py, x, y) {
            let i = choose|i: int| 0 <= i < best.len() && best[i] == (px as usize, py as usize);
            assert(more[i] == best[i]);
        }
    }
    assert forall|i: int| 0 <= i < more.len() implies {
        &&& precedes((#[trigger] more[i]).0 as int, more[i].1 as int, x + 1, y)
        &&& cand(more[i].0 as int, more[i].1 as int)
        &&& val(more[i].0 as int, more[i].1 as int) == top
    } by {
        if i < best.len() {
            assert(more[i] == best[i]);
        }
    }
    assert(in_board_order(more)) by {
        assert forall|i: int, j: int| 0 <= i < j < more.len() implies precedes(
            (#[trigger] more[i]).0 as int,
            more[i].1 as int,
            (#[trigger] more[j]).0 as int,
            more[j].1 as int,
        ) by {
            assert(more[i] == best[i]);
            if j < best.len() {
                assert(more[j] == best[j]);
            }
        }
    }
}

/// The end of a row is the start of the next one.
proof fn lemma_scan_next_row(
    cand: spec_fn(int, int) -> bool,
    val: spec_fn(int, int) -> int,
    best: Seq<(usize, usize)>,
    top: int,
    y: int,
)
    requires
        best_so_far(cand, val, best, top, BOARD_SIZE as int, y),
        forall|px: int, py: int| #[trigger] cand(px, py) ==> in_board(px, py),
    ensures
        best_so_far(cand, val, best, top, 0, y + 1),
{
    reveal(best_so_far);
}

/// Once every row has been read, the list holds the best candidates of the
/// board, and it is empty only if there is no candidate.
proof fn lemma_scan_done(
    cand: spec_fn(int, int) -> bool,
    val: spec_fn(int, int) -> int,
    best: Seq<(usize, usize)>,
    top: int,
)
    requires
        best_so_far(cand, val, best, top, 0, BOARD_SIZE as int),
        forall|px: int, py: int| #[trigger] cand(px, py) ==> in_board(px, py),
    ensures
        forall|i: int, px: int, py: int|
            0 <= i < best.len() && #[trigger] cand(px, py) ==> cand(
                (#[trigger] best[i]).0 as int,
                best[i].1 as int,
            ) && val(px, py) <= val(best[i].0 as int, best[i].1 as int),
        forall|i: int| 0 <= i < best.len() ==> cand((#[trigger] best[i]).0 as int, best[i].1 as int),
        forall|x: int, y: int|
            #[trigger] cand(x, y) && (forall|px: int, py: int| #[trigger]
                cand(px, py) ==> val(px, py) <= val(x, y)) ==> best.contains(
                (x as usize, y as usize),
            ),
        forall|px: int, py: int| #[trigger] cand(px, py) ==> best.len() > 0,
        in_board_order(best),
{
    reveal(best_so_far);
    assert forall|x: int, y: int|
        #[trigger] cand(x, y) && (forall|px: int, py: int| #[trigger]
            cand(px, py) ==> val(px, py) <= val(x, y)) implies best.contains(
        (x as usize, y as usize),
    ) by {
        assert(precedes(x, y, 0, BOARD_SIZE as int));
        assert(best.len() > 0);
        let first = best[0];
        assert(cand(first.0 as int, first.1 as int));
    }
}

} // verus!
