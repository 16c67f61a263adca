//! The requests and answers as they travel: coordinates given as numbers
//! or as text, commands by name, answers with their wording.

use vstd::prelude::*;
use vstd::utf8::encode_utf8;
use crate::board::Side;
use crate::book::OpeningBook;
use crate::game::GameState;
use crate::session::{response_of, EngineError, Request, Response};

verus! {

/// Whether the byte is a decimal digit.
pub open spec fn is_digit(b: u8) -> bool {
    48 <= b <= 57
}

/// Whether every byte is a decimal digit.
pub open spec fn all_digits(s: Seq<u8>) -> bool {
    forall|i: int| 0 <= i < s.len() ==> is_digit(#[trigger] s[i])
}

/// The number that the digits write in base ten.
pub open spec fn decimal_value(s: Seq<u8>) -> nat
    decreases s.len(),
{
    if s.len() == 0 {
        0
    } else {
        (10 * decimal_value(s.drop_last()) + (s.last() - 48)) as nat
    }
}

/// The text without the plus sign that may stand before the digits.
pub open spec fn unsigned_part(s: Seq<u8>) -> Seq<u8> {
    if s.len() > 0 && s[0] == 43 {
        s.subrange(1, s.len() as int)
    } else {
        s
    }
}

/// The number that the text writes, if it writes one that fits: at least
/// one decimal digit and nothing else, but for a plus sign that may stand in
/// front.
pub open spec fn parse_decimal_spec(s: Seq<u8>) -> Option<usize> {
    let digits = unsigned_part(s);
    if digits.len() > 0 && all_digits(digits) && decimal_value(digits) <= usize::MAX {
        Some(decimal_value(digits) as usize)
    } else {
        None
    }
}

/// The beginning of a number is no larger than the number.
pub proof fn lemma_decimal_value_grows(s: Seq<u8>, k: int)
    requires
        all_digits(s),
        0 <= k <= s.len(),
    ensures
        decimal_value(s.take(k)) <= decimal_value(s),
    decreases s.len() - k,
{
    if k == s.len() {
        assert(s.take(k) =~= s);
    } else {
        let front = s.drop_last();
        assert(front.take(k) =~= s.take(k));
        assert(all_digits(front)) by {
            assert forall|i: int| 0 <= i < front.len() implies is_digit(#[trigger] front[i]) by {
                assert(front[i] == s[i]);
            }
        }
        lemma_decimal_value_grows(front, k);
        assert(is_digit(s[s.len() - 1]));
    }
}

/// The number that the text writes, if it writes one that fits.
pub fn parse_decimal(text: &[u8]) -> (r: Option<usize>)
    ensures
        r == parse_decimal_spec(text@),
{
    let n: usize = text.len();
    let start: usize = if n > 0 && text[0] == 43 {
        1
    } else {
        0
    };
    let ghost digits = unsigned_part(text@);
    assert(digits =~= text@.subrange(start as int, n as int));
    if start == n {
        return None;
    }
    let mut value: usize = 0;
    let mut i: usize = start;
    assert(digits.take(0) =~= Seq::<u8>::empty());
    while i < n
        invariant
            start <= i <= n,
            n == text@.len(),
            digits == unsigned_part(text@),
            digits == text@.subrange(start as int, n as int),
            all_digits(digits.take(i - start)),
            value == decimal_value(digits.take(i - start)),
        decreases n - i,
    {
        let b: u8 = text[i];
        let ghost k = i - start;
        assert(digits[k] == b);
        if b < 48 || b > 57 {
            assert(!is_digit(digits[k]));
            return None;
        }
        proof {
            let more = digits.take(k + 1);
            assert(more.drop_last() =~= digits.take(k));
            assert(more.last() == b);
            assert(all_digits(more)) by {
                assert forall|j: int| 0 <= j < more.len() implies is_digit(#[trigger] more[j]) by {
                    if j < k {
                        assert(digits.take(k)[j] == more[j]);
                    }
                }
            }
            assert(decimal_value(more) == 10 * value + (b - 48));
            if all_digits(digits) {
                lemma_decimal_value_grows(digits, k + 1);
            }
        }
        let tens = match value.checked_mul(10) {
            Some(t) => t,
            None => {
                return None;
            },
        };
        value = match tens.checked_add((b - 48) as usize) {
            Some(v) => v,
            None => {
                return None;
            },
        };
        i += 1;
    }
    assert(digits.take(n - start) =~= digits);
    Some(value)
}

/// A coordinate as it arrives: a number, or text that writes one.
#[derive(Clone, Debug)]
pub enum StrOrUsize {
    Str(String),
    Num(usize),
}

impl StrOrUsize {
    /// The coordinate, if there is one: the number itself, or the number
    /// that the text writes in decimal digits.
    pub open spec fn value(&self) -> Option<usize> {
        match self {
            StrOrUsize::Str(s) => parse_decimal_spec(encode_utf8(s@)),
            StrOrUsize::Num(n) => Some(*n),
        }
    }

    /// The coordinate, if there is one. Text that writes no number that
    /// fits gives `None`.
    pub fn as_usize(&self) -> (r: Option<usize>)
        ensures
            r == self.value(),
    {
        match self {
            StrOrUsize::Str(s) => parse_decimal(s.as_str().as_bytes()),
            StrOrUsize::Num(n) => Some(*n),
        }
    }
}

/// A cell as it arrives.
#[derive(Clone, Debug)]
pub struct CoordIn {
    pub x: StrOrUsize,
    pub y: StrOrUsize,
}

impl CoordIn {
    /// The cell, if both coordinates are there.
    pub open spec fn cell(&self) -> Option<(usize, usize)> {
        match (self.x.value(), self.y.value()) {
            (Some(x), Some(y)) => Some((x, y)),
            _ => None,
        }
    }

    /// The cell, if both coordinates are there.
    pub fn to_cell(&self) -> (r: Option<(usize, usize)>)
        ensures
            r == self.cell(),
    {
        match (self.x.as_usize(), self.y.as_usize()) {
            (Some(x), Some(y)) => Some((x, y)),
            _ => None,
        }
    }
}

/// A cell as it is sent.
#[derive(Clone, Copy, Debug, PartialEq, Eq, Structural)]
pub struct CoordOut {
    pub x: usize,
    pub y: usize,
}

impl CoordOut {
    /// The cell `(x, y)`.
    pub fn from_usize(x: usize, y: usize) -> (c: CoordOut)
        ensures
            c.x == x,
            c.y == y,
    {
        CoordOut { x, y }
    }
}

/// A command as it arrives: its name and, with it or not, a move of the
/// other player.
#[derive(Clone, Debug)]
pub struct Command {
    pub command: String,
    pub opponent_move: Option<CoordIn>,
}

/// Why a command was not understood.
#[derive(Clone, Copy, Debug, PartialEq, Eq, Structural)]
pub enum ProtocolError {
    /// The name is none of `start`, `move` and `reset`.
    UnknownCommand,
    /// The command does not have the form that is asked for: a coordinate
    /// is text that writes no number.
    Malformed,
}

/// Whether the two texts are the same.
pub fn same_text(a: &str, b: &str) -> (same: bool)
    ensures
        same == (a@ == b@),
{
    a.to_owned() == b.to_owned()
}

impl Command {
    /// The request that the command makes. The move counts only for the
    /// command `move`: there a move whose coordinates cannot be read makes
    /// the command malformed, and no move at all makes a request without
    /// a move.
    pub open spec fn request(&self) -> Result<Request, ProtocolError> {
        if self.command@ == "start"@ {
            Ok(Request::Start)
        } else if self.command@ == "move"@ {
            match self.opponent_move {
                None => Ok(Request::Move(None)),
                Some(c) => match c.cell() {
                    Some(cell) => Ok(Request::Move(Some(cell))),
                    None => Err(ProtocolError::Malformed),
                },
            }
        } else if self.command@ == "reset"@ {
            Ok(Request::Reset)
        } else {
            Err(ProtocolError::UnknownCommand)
        }
    }

    /// The request that the command makes.
    pub fn decode(&self) -> (r: Result<Request, ProtocolError>)
        ensures
            r == self.request(),
    {
        let name = self.command.as_str();
        if same_text(name, "start") {
            Ok(Request::Start)
        } else if same_text(name, "move") {
            match &self.opponent_move {
                None => Ok(Request::Move(None)),
                Some(c) => match c.to_cell() {
                    Some(cell) => Ok(Request::Move(Some(cell))),
                    None => Err(ProtocolError::Malformed),
                },
            }
        } else if same_text(name, "reset") {
            Ok(Request::Reset)
        } else {
            Err(ProtocolError::UnknownCommand)
        }
    }
}

/// The wording of an error of the engine.
pub open spec fn engine_error_text(e: EngineError) -> Seq<char> {
    match e {
        EngineError::AlreadyStarted => "Not first move"@,
        EngineError::MissingMove => "No opponent move"@,
        EngineError::AlreadyOccupied => "Move already taken"@,
        EngineError::NoValidMove => "No valid move found"@,
    }
}

/// The wording of an error of the engine.
pub fn engine_error_message(e: EngineError) -> (text: &'static str)
    ensures
        text@ == engine_error_text(e),
{
    match e {
        EngineError::AlreadyStarted => "Not first move",
        EngineError::MissingMove => "No opponent move",
        EngineError::AlreadyOccupied => "Move already taken",
        EngineError::NoValidMove => "No valid move found",
    }
}

/// The wording of a command that was not understood.
pub open spec fn protocol_error_text(e: ProtocolError) -> Seq<char> {
    match e {
        ProtocolError::UnknownCommand => "Unknown command"@,
        ProtocolError::Malformed => "Wrong JSON format"@,
    }
}

/// The wording of a command that was not understood.
pub fn protocol_error_message(e: ProtocolError) -> (text: &'static str)
    ensures
        text@ == protocol_error_text(e),
{
    match e {
        ProtocolError::UnknownCommand => "Unknown command",
        ProtocolError::Malformed => "Wrong JSON format",
    }
}

/// The answer that tells of a move of the engine.
#[derive(Clone, Debug)]
pub struct MoveResponse {
    /// The cell that the engine has played on.
    pub chosen: CoordOut,
    /// The name that the engine plays under.
    pub team: String,
}

/// The answer that acknowledges a request.
#[derive(Clone, Debug)]
pub struct Reply {
    pub reply: String,
}

/// The answer that tells of an error.
#[derive(Clone, Debug)]
pub struct ErrorReply {
    pub error: String,
}

/// The answer that tells of the error worded `msg`.
pub fn error(msg: &str) -> (r: ErrorReply)
    ensures
        r.error@ == msg@,
{
    ErrorReply { error: msg.to_owned() }
}

/// An answer as it is sent.
#[derive(Clone, Debug)]
pub enum Answer {
    Move(MoveResponse),
    Reply(Reply),
    Error(ErrorReply),
}

/// What an answer says.
pub enum AnswerView {
    /// The engine has played on the cell, under the name.
    Move { x: usize, y: usize, team: Seq<char> },
    /// The request is acknowledged with the word.
    Reply { word: Seq<char> },
    /// The request failed with the wording.
    Error { text: Seq<char> },
}

impl View for Answer {
    type V = AnswerView;

    open spec fn view(&self) -> AnswerView {
        match self {
            Answer::Move(m) => AnswerView::Move { x: m.chosen.x, y: m.chosen.y, team: m.team@ },
            Answer::Reply(r) => AnswerView::Reply { word: r.reply@ },
            Answer::Error(e) => AnswerView::Error { text: e.error@ },
        }
    }
}

/// What is sent for an answer of the engine: the cell with the engine's
/// name, the word `ok` for a cleared match, or the wording of the error.
pub open spec fn answer_of(response: Response) -> AnswerView {
    match response {
        Response::Played(x, y) => AnswerView::Move { x, y, team: "team crabs"@ },
        Response::Cleared => AnswerView::Reply { word: "ok"@ },
        Response::Failed(e) => AnswerView::Error { text: engine_error_text(e) },
    }
}

/// What is sent for an answer of the engine.
pub fn answer_for(response: Response) -> (a: Answer)
    ensures
        a@ == answer_of(response),
{
    match response {
        Response::Played(x, y) => Answer::Move(
            MoveResponse { chosen: CoordOut::from_usize(x, y), team: "team crabs".to_owned() },
        ),
        Response::Cleared => Answer::Reply(Reply { reply: "ok".to_owned() }),
        Response::Failed(e) => Answer::Error(error(engine_error_message(e))),
    }
}

/// Carries out one command on the match and gives what is to be sent back.
/// A command that is not understood leaves the match as it was and is
/// answered with its error.
pub fn serve(
    state: &mut GameState,
    command: &Command,
    book: &OpeningBook,
    rng: &mut rand::rngs::StdRng,
) -> (a: Answer)
    requires
        old(state).wf(),
        book.wf(),
    ensures
        final(state).wf(),
        match command.request() {
            Err(e) => a@ == (AnswerView::Error { text: protocol_error_text(e) }) && final(state)@
                == old(state)@,
            Ok(Request::Start) => a@ == answer_of(response_of(old(state)@.start_result()))
                && final(state)@ == old(state)@.after_start(),
            Ok(Request::Reset) => a@ == answer_of(Response::Cleared) && final(state)@ == old(
                state,
            )@.cleared(),
            Ok(Request::Move(None)) => a@ == answer_of(Response::Failed(EngineError::MissingMove))
                && final(state)@ == old(state)@,
            Ok(Request::Move(Some((ox, oy)))) => {
                let mid = old(state)@.after_move(ox, oy, Side::Opponent);
                ||| exists|x: usize, y: usize|
                    {
                        &&& a@ == answer_of(Response::Played(x, y))
                        &&& mid.may_select(book@, x as int, y as int)
                        &&& mid.is_candidate(x as int, y as int)
                        &&& final(state)@ == mid.after_move(x, y, Side::Mine)
                    }
                ||| {
                    &&& a@ == answer_of(Response::Failed(EngineError::NoValidMove))
                    &&& !mid.has_candidate()
                    &&& final(state)@ == mid
                }
            },
        },
{
    match command.decode() {
        Err(e) => Answer::Error(error(protocol_error_message(e))),
        Ok(request) => {
            let response = state.handle(request, book, rng);
            answer_for(response)
        },
    }
}

} // verus!
