//! The opening book: canned sequences of moves, each starting at the centre
//! of the board, and the moves that they offer after a given history.

use vstd::prelude::*;
use crate::board::{in_board, BOARD_SIZE, CENTER};

verus! {

/// A line of the book is a sequence of moves on the board of which the first
/// is the centre.
pub open spec fn is_book_line(line: Seq<(usize, usize)>) -> bool {
    &&& line.len() > 0
    &&& line[0] == (CENTER, CENTER)
    &&& forall|j: int| 0 <= j < line.len() ==> in_board(#[trigger] line[j].0 as int, line[j].1 as int)
}

/// Whether `line` goes on after `history`: the history is its beginning and
/// the line is longer.
pub open spec fn extends(line: Seq<(usize, usize)>, history: Seq<(usize, usize)>) -> bool {
    &&& history.len() < line.len()
    &&& forall|j: int| 0 <= j < history.len() ==> line[j] == #[trigger] history[j]
}

/// The moves that the book offers after `history`: for each line that goes
/// on after it, in the book's order, the line's next move.
pub open spec fn continuations(
    lines: Seq<Seq<(usize, usize)>>,
    history: Seq<(usize, usize)>,
) -> Seq<(usize, usize)> {
    lines.filter(|line: Seq<(usize, usize)>| extends(line, history)).map_values(
        |line: Seq<(usize, usize)>| line[history.len() as int],
    )
}

/// A library of opening lines.
#[derive(Clone, Debug)]
pub struct OpeningBook {
    lines: Vec<Vec<(usize, usize)>>,
}

impl View for OpeningBook {
    type V = Seq<Seq<(usize, usize)>>;

    closed spec fn view(&self) -> Seq<Seq<(usize, usize)>> {
        self.lines@.map_values(|line: Vec<(usize, usize)>| line@)
    }
}

/// Whether `line` is a line that a book accepts.
pub fn check_book_line(line: &Vec<(usize, usize)>) -> (ok: bool)
    ensures
        ok == is_book_line(line@),
{
    if line.len() == 0 {
        return false;
    }
    if line[0].0 != CENTER || line[0].1 != CENTER {
        return false;
    }
    let mut j: usize = 0;
    while j < line.len()
        invariant
            j <= line@.len(),
            forall|k: int| 0 <= k < j ==> in_board(#[trigger] line@[k].0 as int, line@[k].1 as int),
        decreases line@.len() - j,
    {
        if line[j].0 >= BOARD_SIZE || line[j].1 >= BOARD_SIZE {
            return false;
        }
        j += 1;
    }
    true
}

/// Whether `line` goes on after `history`.
pub fn line_extends(line: &Vec<(usize, usize)>, history: &Vec<(usize, usize)>) -> (b: bool)
    ensures
        b == extends(line@, history@),
{
    if history.len() >= line.len() {
        return false;
    }
    let mut j: usize = 0;
    while j < history.len()
        invariant
            j <= history@.len(),
            history@.len() < line@.len(),
            forall|k: int| 0 <= k < j ==> line@[k] == #[trigger] history@[k],
        decreases history@.len() - j,
    {
        if line[j].0 != history[j].0 || line[j].1 != history[j].1 {
            return false;
        }
        j += 1;
    }
    true
}

impl OpeningBook {
    /// A book is well formed when each of its lines is a book line.
    pub open spec fn wf(&self) -> bool {
        forall|i: int| 0 <= i < self@.len() ==> is_book_line(#[trigger] self@[i])
    }

    /// A book without lines.
    pub fn new() -> (book: OpeningBook)
        ensures
            book.wf(),
            book@ == Seq::<Seq<(usize, usize)>>::empty(),
    {
        let book = OpeningBook { lines: Vec::new() };
        assert(book@ =~= Seq::<Seq<(usize, usize)>>::empty());
        book
    }

    /// The number of lines.
    pub fn len(&self) -> (n: usize)
        ensures
            n == self@.len(),
    {
        self.lines.len()
    }

    /// Adds `line` at the end of the book if it is a book line, and says
    /// whether it did. Any other line leaves the book as it was.
    pub fn add_line(&mut self, line: Vec<(usize, usize)>) -> (added: bool)
        requires
            old(self).wf(),
        ensures
            final(self).wf(),
            added == is_book_line(line@),
            final(self)@ == if added {
                old(self)@.push(line@)
            } else {
                old(self)@
            },
    {
        if check_book_line(&line) {
            let ghost before = self@;
            self.lines.push(line);
            assert(self@ =~= before.push(line@));
            true
        } else {
            false
        }
    }

    /// The moves that the book offers after `history`.
    pub fn continuations(&self, history: &Vec<(usize, usize)>) -> (moves: Vec<(usize, usize)>)
        requires
            self.wf(),
        ensures
            moves@ == continuations(self@, history@),
    {
        let ghost pred = |line: Seq<(usize, usize)>| extends(line, history@);
        let ghost next = |line: Seq<(usize, usize)>| line[history@.len() as int];
        let mut moves: Vec<(usize, usize)> = Vec::new();
        let mut i: usize = 0;
        proof {
            reveal(Seq::filter);
            assert(self@.take(0) =~= Seq::<Seq<(usize, usize)>>::empty());
            assert(self@.take(0).filter(pred).map_values(next) =~= moves@);
        }
        while i < self.lines.len()
            invariant
                i <= self.lines@.len(),
                self.lines@.len() == self@.len(),
                pred == |line: Seq<(usize, usize)>| extends(line, history@),
                next == |line: Seq<(usize, usize)>| line[history@.len() as int],
                moves@ == self@.take(i as int).filter(pred).map_values(next),
            decreases self.lines@.len() - i,
        {
            let line = &self.lines[i];
            proof {
                reveal(Seq::filter);
                let head = self@.take(i as int);
                let more = self@.take(i + 1);
                assert(more.drop_last() =~= head);
                assert(more.last() == line@);
                if pred(line@) {
                    assert(more.filter(pred) == head.filter(pred).push(line@));
                    assert(more.filter(pred).map_values(next) =~= head.filter(pred).map_values(
                        next,
                    ).push(next(line@)));
                } else {
                    assert(more.filter(pred) == head.filter(pred));
                }
            }
            if line_extends(line, history) {
                moves.push(line[history.len()]);
            }
            i += 1;
        }
        assert(self@.take(i as int) =~= self@);
        moves
    }
}

/// Where the history is the beginning of exactly one line of the book, and
/// that line is longer, the one move that the book offers is that line's
/// next move.
pub proof fn lemma_single_line_gives_its_next_move(
    lines: Seq<Seq<(usize, usize)>>,
    history: Seq<(usize, usize)>,
    k: int,
)
    requires
        0 <= k < lines.len(),
        extends(lines[k], history),
        forall|i: int| 0 <= i < lines.len() && i != k ==> !extends(#[trigger] lines[i], history),
    ensures
        continuations(lines, history) == seq![lines[k][history.len() as int]],
    decreases lines.len(),
{
    reveal(Seq::filter);
    let pred = |line: Seq<(usize, usize)>| extends(line, history);
    let next = |line: Seq<(usize, usize)>| line[history.len() as int];
    let front = lines.drop_last();
    if k == lines.len() - 1 {
        lemma_no_line_gives_no_move(front, history);
        assert(lines.filter(pred) =~= seq![lines[k]]);
    } else {
        lemma_single_line_gives_its_next_move(front, history, k);
        assert(lines.filter(pred) == front.filter(pred));
    }
    assert(continuations(lines, history) =~= seq![lines[k][history.len() as int]]);
}

/// Where no line of the book goes on after the history, the book offers no
/// move.
pub proof fn lemma_no_line_gives_no_move(lines: Seq<Seq<(usize, usize)>>, history: Seq<(usize, usize)>)
    requires
        forall|i: int| 0 <= i < lines.len() ==> !extends(#[trigger] lines[i], history),
    ensures
        continuations(lines, history).len() == 0,
        lines.filter(|line: Seq<(usize, usize)>| extends(line, history)).len() == 0,
    decreases lines.len(),
{
    reveal(Seq::filter);
    if lines.len() > 0 {
        lemma_no_line_gives_no_move(lines.drop_last(), history);
    }
}

} // verus!
