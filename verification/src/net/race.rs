//! Racing connection attempts: a parent state that holds the tokens of its
//! attempts, of which the first to succeed wins and the others are closed.

use vstd::prelude::*;
use crate::common::Token;

verus! {

/// The abstract state of a race.
pub struct RaceView {
    /// The attempts in flight, in the order they were started.
    pub attempts: Seq<Token>,
    /// Whether attempts may still be added.
    pub open: bool,
    /// Whether the race is over.
    pub finished: bool,
}

/// How a race went on.
pub enum Step {
    /// The step came too late or named no attempt of the race: nothing
    /// changed.
    Ignored,
    /// The race goes on.
    Pending,
    /// The attempt `winner` won. The attempts `losers` are to be closed.
    Won { winner: Token, losers: Seq<Token> },
    /// Every attempt failed, or time ran out. The attempts `losers` are to
    /// be closed.
    Lost { losers: Seq<Token> },
    /// The race was called off. The attempts `losers` are to be closed.
    Cancelled { losers: Seq<Token> },
}

impl RaceView {
    /// Whether the race has come to its end by itself: nothing is in flight
    /// and nothing can be added.
    pub open spec fn exhausted(self) -> bool {
        self.attempts.len() == 0 && !self.open
    }

    /// The race over, with nothing in flight.
    pub open spec fn over() -> RaceView {
        RaceView { attempts: Seq::empty(), open: false, finished: true }
    }

    /// The race that starts with `attempts` in flight.
    pub open spec fn start(attempts: Seq<Token>, open: bool) -> (RaceView, Step) {
        if attempts.len() == 0 && !open {
            (RaceView::over(), Step::Lost { losers: Seq::empty() })
        } else {
            (RaceView { attempts, open, finished: false }, Step::Pending)
        }
    }

    /// A new attempt joins the race.
    pub open spec fn add(self, token: Token) -> (RaceView, Step) {
        if self.finished || !self.open || self.attempts.contains(token) {
            (self, Step::Ignored)
        } else {
            (RaceView { attempts: self.attempts.push(token), ..self }, Step::Pending)
        }
    }

    /// The attempt `token` failed.
    pub open spec fn failed(self, token: Token) -> (RaceView, Step) {
        if self.finished || !self.attempts.contains(token) {
            (self, Step::Ignored)
        } else {
            let left = self.attempts.remove_value(token);
            if left.len() == 0 && !self.open {
                (RaceView::over(), Step::Lost { losers: Seq::empty() })
            } else {
                (RaceView { attempts: left, ..self }, Step::Pending)
            }
        }
    }

    /// The attempt `token` succeeded.
    pub open spec fn won(self, token: Token) -> (RaceView, Step) {
        if self.finished || !self.attempts.contains(token) {
            (self, Step::Ignored)
        } else {
            (
                RaceView::over(),
                Step::Won { winner: token, losers: self.attempts.remove_value(token) },
            )
        }
    }

    /// No attempt will be added any more.
    pub open spec fn close(self) -> (RaceView, Step) {
        if self.finished {
            (self, Step::Ignored)
        } else if self.attempts.len() == 0 {
            (RaceView::over(), Step::Lost { losers: Seq::empty() })
        } else {
            (RaceView { open: false, ..self }, Step::Pending)
        }
    }

    /// Time ran out.
    pub open spec fn expire(self) -> (RaceView, Step) {
        if self.finished {
            (self, Step::Ignored)
        } else {
            (RaceView::over(), Step::Lost { losers: self.attempts })
        }
    }

    /// The race is called off.
    pub open spec fn cancel(self) -> (RaceView, Step) {
        if self.finished {
            (self, Step::Ignored)
        } else {
            (RaceView::over(), Step::Cancelled { losers: self.attempts })
        }
    }
}

/// How a race went on, in executable form.
#[derive(Debug, PartialEq, Eq)]
pub enum RaceStep {
    Ignored,
    Pending,
    Won { winner: Token, losers: Vec<Token> },
    Lost { losers: Vec<Token> },
    Cancelled { losers: Vec<Token> },
}

impl View for RaceStep {
    type V = Step;

    open spec fn view(&self) -> Step {
        match self {
            RaceStep::Ignored => Step::Ignored,
            RaceStep::Pending => Step::Pending,
            RaceStep::Won { winner, losers } => Step::Won { winner: *winner, losers: losers@ },
            RaceStep::Lost { losers } => Step::Lost { losers: losers@ },
            RaceStep::Cancelled { losers } => Step::Cancelled { losers: losers@ },
        }
    }
}

/// A race of connection attempts.
pub struct Race {
    attempts: Vec<Token>,
    open: bool,
    finished: bool,
}

impl View for Race {
    type V = RaceView;

    closed spec fn view(&self) -> RaceView {
        RaceView { attempts: self.attempts@, open: self.open, finished: self.finished }
    }
}

/// The place of `token` in `attempts`, if it is one of them.
fn position(attempts: &Vec<Token>, token: Token) -> (found: Option<usize>)
    ensures
        match found {
            Some(i) => i < attempts.len() && attempts@[i as int] == token
                && attempts@.index_of_first(
                token,
            ) == Some(i as int),
            None => !attempts@.contains(token),
        },
{
    let mut i: usize = 0;
    while i < attempts.len()
        invariant
            i <= attempts.len(),
            forall|j: int| 0 <= j < i ==> attempts@[j] != token,
        decreases attempts.len() - i,
    {
        if attempts[i] == token {
            proof {
                attempts@.index_of_first_ensures(token);
            }
            return Some(i);
        }
        i = i + 1;
    }
    None
}

impl Race {
    /// A finished race has nothing in flight.
    pub closed spec fn wf(&self) -> bool {
        self.finished ==> self@ == RaceView::over()
    }

    /// Starts a race with `attempts` in flight. A race with no attempt, to
    /// which none can be added, is lost at once.
    pub fn new(attempts: Vec<Token>, open: bool) -> (started: (Race, RaceStep))
        ensures
            started.0.wf(),
            (started.0@, started.1@) == RaceView::start(attempts@, open),
    {
        if attempts.len() == 0 && !open {
            (
                Race { attempts: Vec::new(), open: false, finished: true },
                RaceStep::Lost { losers: Vec::new() },
            )
        } else {
            (Race { attempts, open, finished: false }, RaceStep::Pending)
        }
    }

    /// Whether the race is over.
    pub fn is_finished(&self) -> (finished: bool)
        ensures
            finished == self@.finished,
    {
        self.finished
    }

    /// Whether attempts may still be added.
    pub fn is_open(&self) -> (open: bool)
        ensures
            open == self@.open,
    {
        self.open
    }

    /// The number of attempts in flight.
    pub fn in_flight(&self) -> (count: usize)
        ensures
            count == self@.attempts.len(),
    {
        self.attempts.len()
    }

    fn finish(&mut self) -> (losers: Vec<Token>)
        ensures
            final(self).wf(),
            final(self)@ == RaceView::over(),
            losers@ == old(self)@.attempts,
    {
        let mut losers: Vec<Token> = Vec::new();
        std::mem::swap(&mut losers, &mut self.attempts);
        self.open = false;
        self.finished = true;
        losers
    }

    /// Lets the attempt `token` join the race. It is ignored, and the
    /// attempt is to be closed by the caller, when the race is over or
    /// takes no more attempts, and when the token is in the race already.
    pub fn add(&mut self, token: Token) -> (step: RaceStep)
        requires
            old(self).wf(),
        ensures
            final(self).wf(),
            (final(self)@, step@) == old(self)@.add(token),
    {
        if self.finished || !self.open {
            return RaceStep::Ignored;
        }
        match position(&self.attempts, token) {
            Some(_) => RaceStep::Ignored,
            None => {
                self.attempts.push(token);
                RaceStep::Pending
            },
        }
    }

    /// The attempt `token` failed: it leaves the race. The race is lost
    /// when it was the last one and none can be added.
    pub fn failed(&mut self, token: Token) -> (step: RaceStep)
        requires
            old(self).wf(),
        ensures
            final(self).wf(),
            (final(self)@, step@) == old(self)@.failed(token),
    {
        if self.finished {
            return RaceStep::Ignored;
        }
        match position(&self.attempts, token) {
            None => RaceStep::Ignored,
            Some(i) => {
                let _ = self.attempts.remove(i);
                if self.attempts.len() == 0 && !self.open {
                    let _ = self.finish();
                    RaceStep::Lost { losers: Vec::new() }
                } else {
                    RaceStep::Pending
                }
            },
        }
    }

    /// The attempt `token` succeeded: it wins, the race is over, and the
    /// other attempts are handed out to be closed.
    pub fn won(&mut self, token: Token) -> (step: RaceStep)
        requires
            old(self).wf(),
        ensures
            final(self).wf(),
            (final(self)@, step@) == old(self)@.won(token),
    {
        if self.finished {
            return RaceStep::Ignored;
        }
        match position(&self.attempts, token) {
            None => RaceStep::Ignored,
            Some(i) => {
                let _ = self.attempts.remove(i);
                let losers = self.finish();
                RaceStep::Won { winner: token, losers }
            },
        }
    }

    /// No attempt will be added any more. The race is lost when none is in
    /// flight.
    pub fn close(&mut self) -> (step: RaceStep)
        requires
            old(self).wf(),
        ensures
            final(self).wf(),
            (final(self)@, step@) == old(self)@.close(),
    {
        if self.finished {
            return RaceStep::Ignored;
        }
        if self.attempts.len() == 0 {
            let _ = self.finish();
            RaceStep::Lost { losers: Vec::new() }
        } else {
            self.open = false;
            RaceStep::Pending
        }
    }

    /// Time ran out: the race is lost, and the attempts in flight are
    /// handed out to be closed.
    pub fn expire(&mut self) -> (step: RaceStep)
        requires
            old(self).wf(),
        ensures
            final(self).wf(),
            (final(self)@, step@) == old(self)@.expire(),
    {
        if self.finished {
            return RaceStep::Ignored;
        }
        let losers = self.finish();
        RaceStep::Lost { losers }
    }

    /// Calls the race off: it is over without a result, and the attempts in
    /// flight are handed out to be closed.
    pub fn cancel(&mut self) -> (step: RaceStep)
        requires
            old(self).wf(),
        ensures
            final(self).wf(),
            (final(self)@, step@) == old(self)@.cancel(),
    {
        if self.finished {
            return RaceStep::Ignored;
        }
        let losers = self.finish();
        RaceStep::Cancelled { losers }
    }
}

/// Whether a step ends a race: it names a winner, a loss or a cancellation.
pub open spec fn ends(step: Step) -> bool {
    step is Won || step is Lost || step is Cancelled
}

/// A race ends at most once: whatever happens to a race that is over is
/// ignored and leaves it as it is.
pub proof fn lemma_race_ends_once(race: RaceView, token: Token)
    requires
        race.finished,
    ensures
        race.add(token) == (race, Step::Ignored),
        race.failed(token) == (race, Step::Ignored),
        race.won(token) == (race, Step::Ignored),
        race.close() == (race, Step::Ignored),
        race.expire() == (race, Step::Ignored),
        race.cancel() == (race, Step::Ignored),
{
}

/// A step ends a race exactly when it leaves the race finished, and a race
/// that goes on was not ended: so a race that runs to its end gives one
/// result, a winner, a loss or a cancellation.
pub proof fn lemma_race_result_is_final(race: RaceView, token: Token)
    requires
        !race.finished,
    ensures
        ends(race.add(token).1) == race.add(token).0.finished,
        ends(race.failed(token).1) == race.failed(token).0.finished,
        ends(race.won(token).1) == race.won(token).0.finished,
        ends(race.close().1) == race.close().0.finished,
        ends(race.expire().1) == race.expire().0.finished,
        ends(race.cancel().1) == race.cancel().0.finished,
{
}

/// A race that starts with no attempt and takes none is lost from the
/// start.
pub proof fn lemma_empty_race_is_lost()
    ensures
        RaceView::start(Seq::empty(), false) == (
            RaceView::over(),
            Step::Lost { losers: Seq::empty() },
        ),
{
}

} // verus!
