//! Lines of symbols and the threats that they show.
//!
//! A line is what one side sees along one axis: its own stones, free cells
//! and cells that block it (stones of the other side and the board's edge).
//! A line's class is the strongest pattern that occurs in it.

use vstd::prelude::*;

verus! {

/// What one side sees in one cell of a line.
#[derive(Clone, Copy, Debug, PartialEq, Eq, Structural)]
pub enum Symbol {
    /// A stone of the side itself.
    Own,
    /// An empty cell.
    Free,
    /// A stone of the other side, or a position beyond the edge.
    Block,
}

/// The class of a line, from the strongest to the weakest.
#[derive(Clone, Copy, Debug, PartialEq, Eq, Structural)]
pub enum LineThreat {
    Five,
    OpenFour,
    BlockedFour,
    OpenThree,
    BlockedThree,
    Two,
    Other,
}

impl LineThreat {
    /// Place of the class in the order of strength: 6 for `Five` down to 0
    /// for `Other`.
    pub open spec fn rank_spec(self) -> int {
        match self {
            LineThreat::Five => 6,
            LineThreat::OpenFour => 5,
            LineThreat::BlockedFour => 4,
            LineThreat::OpenThree => 3,
            LineThreat::BlockedThree => 2,
            LineThreat::Two => 1,
            LineThreat::Other => 0,
        }
    }

    /// Place of the class in the order of strength.
    pub fn rank(self) -> (r: u8)
        ensures
            r == self.rank_spec(),
    {
        match self {
            LineThreat::Five => 6,
            LineThreat::OpenFour => 5,
            LineThreat::BlockedFour => 4,
            LineThreat::OpenThree => 3,
            LineThreat::BlockedThree => 2,
            LineThreat::Two => 1,
            LineThreat::Other => 0,
        }
    }

    /// Whether this class is as strong as `other` or stronger.
    pub fn at_least(self, other: LineThreat) -> (b: bool)
        ensures
            b == (self.rank_spec() >= other.rank_spec()),
    {
        self.rank() >= other.rank()
    }
}

/// Whether `pat` stands in `line` from position `i` on.
pub open spec fn occurs_at(line: Seq<Symbol>, pat: Seq<Symbol>, i: int) -> bool {
    &&& 0 <= i
    &&& i + pat.len() <= line.len()
    &&& forall|k: int| 0 <= k < pat.len() ==> line[i + k] == #[trigger] pat[k]
}

/// Whether `pat` stands somewhere in `line`.
pub open spec fn occurs(line: Seq<Symbol>, pat: Seq<Symbol>) -> bool {
    exists|i: int| occurs_at(line, pat, i)
}

/// `n` stones of the side in a row.
pub open spec fn run(n: nat) -> Seq<Symbol> {
    Seq::new(n, |k: int| Symbol::Own)
}

/// Five in a row.
pub open spec fn has_five(line: Seq<Symbol>) -> bool {
    occurs(line, run(5))
}

/// Four in a row with a free cell at both ends.
pub open spec fn has_open_four(line: Seq<Symbol>) -> bool {
    occurs(line, seq![Symbol::Free, Symbol::Own, Symbol::Own, Symbol::Own, Symbol::Own, Symbol::Free])
}

/// Four stones that one more stone makes five: four in a row with a free
/// cell at one end, or a gap after the first or the second stone.
pub open spec fn has_blocked_four(line: Seq<Symbol>) -> bool {
    ||| occurs(line, seq![Symbol::Own, Symbol::Own, Symbol::Own, Symbol::Own, Symbol::Free])
    ||| occurs(line, seq![Symbol::Free, Symbol::Own, Symbol::Own, Symbol::Own, Symbol::Own])
    ||| occurs(line, seq![Symbol::Own, Symbol::Free, Symbol::Own, Symbol::Own, Symbol::Own])
    ||| occurs(line, seq![Symbol::Own, Symbol::Own, Symbol::Free, Symbol::Own, Symbol::Own])
}

/// Three in a row with a free cell at both ends.
pub open spec fn has_open_three(line: Seq<Symbol>) -> bool {
    occurs(line, seq![Symbol::Free, Symbol::Own, Symbol::Own, Symbol::Own, Symbol::Free])
}

/// Three stones with one way on: three in a row with a free cell at one
/// end, or a gap after the first or the second stone.
pub open spec fn has_blocked_three(line: Seq<Symbol>) -> bool {
    ||| occurs(line, seq![Symbol::Own, Symbol::Own, Symbol::Own, Symbol::Free])
    ||| occurs(line, seq![Symbol::Free, Symbol::Own, Symbol::Own, Symbol::Own])
    ||| occurs(line, seq![Symbol::Own, Symbol::Free, Symbol::Own, Symbol::Own])
    ||| occurs(line, seq![Symbol::Own, Symbol::Own, Symbol::Free, Symbol::Own])
}

/// Two in a row.
pub open spec fn has_two(line: Seq<Symbol>) -> bool {
    occurs(line, run(2))
}

/// The class of a line: the first of the patterns, from the strongest down,
/// that occurs in it.
pub open spec fn classify(line: Seq<Symbol>) -> LineThreat {
    if has_five(line) {
        LineThreat::Five
    } else if has_open_four(line) {
        LineThreat::OpenFour
    } else if has_blocked_four(line) {
        LineThreat::BlockedFour
    } else if has_open_three(line) {
        LineThreat::OpenThree
    } else if has_blocked_three(line) {
        LineThreat::BlockedThree
    } else if has_two(line) {
        LineThreat::Two
    } else {
        LineThreat::Other
    }
}

/// Whether `pat` stands in `line` from position `i` on.
pub fn matches_at(line: &[Symbol], pat: &[Symbol], i: usize) -> (b: bool)
    requires
        i + pat@.len() <= line@.len(),
    ensures
        b == occurs_at(line@, pat@, i as int),
{
    let n: usize = line.len();
    let mut k: usize = 0;
    while k < pat.len()
        invariant
            k <= pat@.len(),
            n == line@.len(),
            i + pat@.len() <= n,
            forall|j: int| 0 <= j < k ==> line@[i + j] == #[trigger] pat@[j],
        decreases pat@.len() - k,
    {
        if line[i + k] != pat[k] {
            return false;
        }
        k += 1;
    }
    true
}

/// Whether `pat` stands somewhere in `line`.
pub fn contains_pattern(line: &[Symbol], pat: &[Symbol]) -> (b: bool)
    ensures
        b == occurs(line@, pat@),
{
    if pat.len() > line.len() {
        return false;
    }
    let last: usize = line.len() - pat.len();
    let mut i: usize = 0;
    while i < last
        invariant
            i <= last,
            last == line@.len() - pat@.len(),
            forall|j: int| 0 <= j < i ==> !occurs_at(line@, pat@, j),
        decreases last - i,
    {
        if matches_at(line, pat, i) {
            return true;
        }
        i += 1;
    }
    matches_at(line, pat, last)
}

/// The class of a line.
pub fn classify_line(line: &[Symbol]) -> (t: LineThreat)
    ensures
        t == classify(line@),
{
    let o = Symbol::Own;
    let f = Symbol::Free;
    let five: [Symbol; 5] = [o, o, o, o, o];
    let two: [Symbol; 2] = [o, o];
    proof {
        assert(five@ =~= run(5));
        assert(two@ =~= run(2));
    }
    if contains_pattern(line, &five) {
        LineThreat::Five
    } else if contains_pattern(line, &[f, o, o, o, o, f]) {
        LineThreat::OpenFour
    } else if contains_pattern(line, &[o, o, o, o, f]) || contains_pattern(line, &[f, o, o, o, o])
        || contains_pattern(line, &[o, f, o, o, o]) || contains_pattern(line, &[o, o, f, o, o]) {
        LineThreat::BlockedFour
    } else if contains_pattern(line, &[f, o, o, o, f]) {
        LineThreat::OpenThree
    } else if contains_pattern(line, &[o, o, o, f]) || contains_pattern(line, &[f, o, o, o])
        || contains_pattern(line, &[o, f, o, o]) || contains_pattern(line, &[o, o, f, o]) {
        LineThreat::BlockedThree
    } else if contains_pattern(line, &two) {
        LineThreat::Two
    } else {
        LineThreat::Other
    }
}

} // verus!
