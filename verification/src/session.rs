//! The match as a state machine: what the engine does on each request of the
//! other player, and what it answers.

use vstd::prelude::*;
use crate::board::{Side, CENTER};
use crate::book::OpeningBook;
use crate::game::{GameState, GameView};

verus! {

/// What the other player may ask of the engine.
#[derive(Clone, Copy, Debug, PartialEq, Eq)]
pub enum Request {
    /// The engine is to open the match.
    Start,
    /// The other player has moved and the engine is to reply. The move is
    /// missing where the request came without one.
    Move(Option<(usize, usize)>),
    /// The match is to be cleared.
    Reset,
}

/// Why a request was not carried out.
#[derive(Clone, Copy, Debug, PartialEq, Eq, Structural)]
pub enum EngineError {
    /// The engine was asked to open a match that is under way.
    AlreadyStarted,
    /// A move was announced and not given.
    MissingMove,
    /// The cell that the engine was to play on holds a stone.
    AlreadyOccupied,
    /// The engine may play nowhere.
    NoValidMove,
}

/// What the engine answers.
#[derive(Clone, Copy, Debug, PartialEq, Eq)]
pub enum Response {
    /// The engine has played on this cell.
    Played(usize, usize),
    /// The match has been cleared.
    Cleared,
    /// The request was not carried out.
    Failed(EngineError),
}

impl GameView {
    /// The state after a request to open the match: the engine's stone is on
    /// the centre if the first move was awaited, else nothing has changed.
    pub open spec fn after_start(self) -> GameView {
        if self.awaiting_first_move {
            self.after_move(CENTER, CENTER, Side::Mine)
        } else {
            self
        }
    }

    /// The answer to a request to open the match.
    pub open spec fn start_result(self) -> Result<(usize, usize), EngineError> {
        if self.awaiting_first_move {
            Ok((CENTER, CENTER))
        } else {
            Err(EngineError::AlreadyStarted)
        }
    }

    /// The state after the engine was to play `chosen`: its stone is there
    /// if a cell was chosen and was empty, else nothing has changed.
    pub open spec fn after_commit(self, chosen: Option<(usize, usize)>) -> GameView {
        match chosen {
            Some((x, y)) => self.after_move(x, y, Side::Mine),
            None => self,
        }
    }

    /// The answer when the engine was to play `chosen`.
    pub open spec fn commit_result(
        self,
        chosen: Option<(usize, usize)>,
    ) -> Result<(usize, usize), EngineError> {
        match chosen {
            Some((x, y)) => if self.is_empty(x as int, y as int) {
                Ok((x, y))
            } else {
                Err(EngineError::AlreadyOccupied)
            },
            None => Err(EngineError::NoValidMove),
        }
    }
}

/// The answer that belongs to the outcome of a move.
pub open spec fn response_of(outcome: Result<(usize, usize), EngineError>) -> Response {
    match outcome {
        Ok((x, y)) => Response::Played(x, y),
        Err(e) => Response::Failed(e),
    }
}

/// The answer that belongs to the outcome of a move.
pub fn respond_with(outcome: Result<(usize, usize), EngineError>) -> (r: Response)
    ensures
        r == response_of(outcome),
{
    match outcome {
        Ok((x, y)) => Response::Played(x, y),
        Err(e) => Response::Failed(e),
    }
}

impl GameState {
    /// Opens the match: while the first move is awaited the engine plays on
    /// the centre and says so. A match that is under way is left as it is,
    /// with the error `AlreadyStarted`.
    pub fn start(&mut self) -> (r: Result<(usize, usize), EngineError>)
        requires
            old(self).wf(),
        ensures
            final(self).wf(),
            final(self)@ == old(self)@.after_start(),
            r == old(self)@.start_result(),
    {
        if self.awaiting_first_move() {
            let placed = self.play(CENTER, CENTER, Side::Mine);
            assert(placed);
            Ok((CENTER, CENTER))
        } else {
            Err(EngineError::AlreadyStarted)
        }
    }

    /// Records a move of the other player, and says whether it did. A move
    /// onto a cell that holds a stone, or beyond the board, is passed over.
    pub fn record_opponent_move(&mut self, x: usize, y: usize) -> (recorded: bool)
        requires
            old(self).wf(),
        ensures
            final(self).wf(),
            recorded == old(self)@.is_empty(x as int, y as int),
            final(self)@ == old(self)@.after_move(x, y, Side::Opponent),
    {
        self.play(x, y, Side::Opponent)
    }

    /// Plays the move that was chosen for the engine. No move gives the
    /// error `NoValidMove`, a cell that is not empty `AlreadyOccupied`; both
    /// leave the state as it was.
    pub fn commit_move(
        &mut self,
        chosen: Option<(usize, usize)>,
    ) -> (r: Result<(usize, usize), EngineError>)
        requires
            old(self).wf(),
        ensures
            final(self).wf(),
            final(self)@ == old(self)@.after_commit(chosen),
            r == old(self)@.commit_result(chosen),
    {
        match chosen {
            Some((x, y)) => {
                if self.play(x, y, Side::Mine) {
                    Ok((x, y))
                } else {
                    Err(EngineError::AlreadyOccupied)
                }
            },
            None => Err(EngineError::NoValidMove),
        }
    }

    /// Answers a move of the other player: records it, selects the engine's
    /// move and plays it. Without a move the state is left as it was, with
    /// the error `MissingMove`. The engine fails with `NoValidMove` only if
    /// it may play nowhere once the move is recorded, and the move stays
    /// recorded then.
    pub fn reply(
        &mut self,
        opponent: Option<(usize, usize)>,
        book: &OpeningBook,
        rng: &mut rand::rngs::StdRng,
    ) -> (r: Result<(usize, usize), EngineError>)
        requires
            old(self).wf(),
            book.wf(),
        ensures
            final(self).wf(),
            opponent is None ==> r == Err::<(usize, usize), EngineError>(EngineError::MissingMove)
                && final(self)@ == old(self)@,
            opponent matches Some((ox, oy)) ==> {
                let mid = old(self)@.after_move(ox, oy, Side::Opponent);
                match r {
                    Ok((x, y)) => {
                        &&& mid.may_select(book@, x as int, y as int)
                        &&& mid.is_candidate(x as int, y as int)
                        &&& final(self)@ == mid.after_move(x, y, Side::Mine)
                    },
                    Err(e) => {
                        &&& e == EngineError::NoValidMove
                        &&& !mid.has_candidate()
                        &&& final(self)@ == mid
                    },
                }
            },
    {
        match opponent {
            None => Err(EngineError::MissingMove),
            Some((ox, oy)) => {
                self.record_opponent_move(ox, oy);
                let chosen = self.select_move(book, rng);
                self.commit_move(chosen)
            },
        }
    }

    /// Carries out one request and gives the answer to it.
    pub fn handle(
        &mut self,
        request: Request,
        book: &OpeningBook,
        rng: &mut rand::rngs::StdRng,
    ) -> (r: Response)
        requires
            old(self).wf(),
            book.wf(),
        ensures
            final(self).wf(),
            request is Start ==> r == response_of(old(self)@.start_result()) && final(self)@ == old(
                self,
            )@.after_start(),
            request is Reset ==> r == Response::Cleared && final(self)@ == old(self)@.cleared(),
            request matches Request::Move(None) ==> r == Response::Failed(EngineError::MissingMove)
                && final(self)@ == old(self)@,
            request matches Request::Move(Some((ox, oy))) ==> {
                let mid = old(self)@.after_move(ox, oy, Side::Opponent);
                match r {
                    Response::Played(x, y) => {
                        &&& mid.may_select(book@, x as int, y as int)
                        &&& mid.is_candidate(x as int, y as int)
                        &&& final(self)@ == mid.after_move(x, y, Side::Mine)
                    },
                    Response::Failed(e) => {
                        &&& e == EngineError::NoValidMove
                        &&& !mid.has_candidate()
                        &&& final(self)@ == mid
                    },
                    Response::Cleared => false,
                }
            },
    {
        match request {
            Request::Start => {
                let outcome = self.start();
                respond_with(outcome)
            },
            Request::Move(opponent) => {
                let outcome = self.reply(opponent, book, rng);
                respond_with(outcome)
            },
            Request::Reset => {
                self.reset();
                Response::Cleared
            },
        }
    }
}

/// After a reset, a request to open the match is answered with the centre,
/// and a second one right after it with `AlreadyStarted`. The first leaves
/// the engine's stone on the centre and nothing else; the second changes
/// nothing.
pub proof fn lemma_start_after_reset(v: GameView)
    ensures
        v.cleared().start_result() == Ok::<(usize, usize), EngineError>((CENTER, CENTER)),
        v.cleared().after_start().start_result() == Err::<(usize, usize), EngineError>(
            EngineError::AlreadyStarted,
        ),
        v.cleared().after_start().after_start() == v.cleared().after_start(),
        v.cleared().after_start().history == seq![(CENTER, CENTER)],
        !v.cleared().after_start().is_empty(CENTER as int, CENTER as int),
{
    assert(v.cleared().after_start().history =~= seq![(CENTER, CENTER)]);
}

/// While the first move is awaited, a request to open the match always
/// succeeds with the centre; afterwards it always fails.
pub proof fn lemma_start_depends_on_first_move(v: GameView)
    requires
        v.valid(),
    ensures
        v.awaiting_first_move ==> v.start_result() == Ok::<(usize, usize), EngineError>(
            (CENTER, CENTER),
        ) && !v.after_start().awaiting_first_move,
        !v.awaiting_first_move ==> v.start_result() == Err::<(usize, usize), EngineError>(
            EngineError::AlreadyStarted,
        ) && v.after_start() == v,
{
}

} // verus!
