//! Bootstrap and direct connect: races of connection attempts inside the
//! registry.

use vstd::prelude::*;
use crate::common::{Context, State, Token};
use crate::event::{events_view, ConnectError, Event, EventView, PubConnectionInfo};
use crate::net::addr::{Endpoint, MappedAddr, SocketAddr};
use crate::net::bootstrap::{candidates, spec_candidates};
use crate::net::peer::{retains, spec_retains, PeerKind, PeerView, Uid};
use crate::net::race::{Race, RaceStep, RaceView, Step};
use crate::net::socket::SocketView;
use crate::service::peers::Promotion;
use crate::service::{Goal, Service};

verus! {

/// What happens to a race.
#[derive(Clone, Copy, Debug, PartialEq, Eq, Structural)]
pub enum RaceOp {
    /// This attempt failed.
    Failed(Token),
    /// This attempt succeeded.
    Won(Token),
    /// No attempt will be added any more.
    Close,
    /// Time ran out.
    Expire,
    /// The race is called off.
    Cancel,
}

/// The race after `op`, and the step it took.
pub open spec fn apply(race: RaceView, op: RaceOp) -> (RaceView, Step) {
    match op {
        RaceOp::Failed(token) => race.failed(token),
        RaceOp::Won(token) => race.won(token),
        RaceOp::Close => race.close(),
        RaceOp::Expire => race.expire(),
        RaceOp::Cancel => race.cancel(),
    }
}

/// The attempts that leave a race with a step: the losers where the step
/// ends the race, and the attempt that failed where it does not.
pub open spec fn leaving(op: RaceOp, step: Step) -> Seq<Token> {
    match step {
        Step::Won { losers, .. } => losers,
        Step::Lost { losers } => match op {
            RaceOp::Failed(token) => losers.push(token),
            _ => losers,
        },
        Step::Cancelled { losers } => losers,
        Step::Pending => match op {
            RaceOp::Failed(token) => seq![token],
            _ => Seq::empty(),
        },
        Step::Ignored => Seq::empty(),
    }
}

/// What starting a race gave.
#[derive(Debug, PartialEq, Eq)]
pub struct Started {
    /// The context of the race, by which it is timed out or called off;
    /// nothing where the race did not start.
    pub context: Option<Context>,
    /// The connections to open, each under its token.
    pub attempts: Vec<(Token, Endpoint)>,
    /// The events to publish.
    pub events: Vec<Event>,
}

/// What a step of a race gave.
#[derive(Debug, PartialEq, Eq)]
pub struct Outcome {
    /// The events to publish.
    pub events: Vec<Event>,
    /// The tokens that left the registry, whose sockets are to be closed.
    pub close: Vec<Token>,
    /// The attempt that won the race with this step, if one did.
    pub winner: Option<Token>,
}

/// The events that a step of a race for `goal` gives, where `uid` is the
/// node that a winning attempt shook hands with. A bootstrap that is won
/// tells of the connect and of the node bootstrapped to, one that is lost of
/// the failure. A direct connect that is won tells of the success, one that
/// is lost of the failure and whether time ran out. A race that goes on or
/// was called off tells nothing.
pub open spec fn race_events(goal: Goal, op: RaceOp, step: Step, uid: Uid) -> Seq<EventView> {
    match step {
        Step::Won { .. } => match goal {
            Goal::Bootstrap => seq![
                EventView::BootstrapConnect(uid, PeerKind::Bootstrap),
                EventView::BootstrappedTo(uid),
            ],
            Goal::Connect(their) => seq![EventView::ConnectSuccess(their)],
        },
        Step::Lost { .. } => match goal {
            Goal::Bootstrap => seq![EventView::BootstrapFailed],
            Goal::Connect(their) => seq![
                EventView::ConnectFailure(
                    their,
                    if op == RaceOp::Expire {
                        ConnectError::TimedOut
                    } else {
                        ConnectError::AllAttemptsFailed
                    },
                ),
            ],
        },
        _ => Seq::empty(),
    }
}

/// The events of a race for `goal` that is lost before it starts.
pub open spec fn lost_at_start(goal: Goal) -> Seq<EventView> {
    race_events(goal, RaceOp::Close, Step::Lost { losers: Seq::empty() }, Uid(0))
}

/// The events to publish after a race for `goal` took `step` on `op`.
pub fn events_of(goal: Goal, op: RaceOp, step: &RaceStep, uid: Uid) -> (events: Vec<Event>)
    ensures
        events_view(events@) == race_events(goal, op, step@, uid),
{
    let mut events: Vec<Event> = Vec::new();
    match step {
        RaceStep::Won { .. } => match goal {
            Goal::Bootstrap => {
                events.push(Event::BootstrapConnect(uid, PeerKind::Bootstrap));
                events.push(Event::BootstrappedTo(uid));
            },
            Goal::Connect(their) => {
                events.push(Event::ConnectSuccess(their));
            },
        },
        RaceStep::Lost { .. } => match goal {
            Goal::Bootstrap => {
                events.push(Event::BootstrapFailed);
            },
            Goal::Connect(their) => {
                let reason = match op {
                    RaceOp::Expire => ConnectError::TimedOut,
                    _ => ConnectError::AllAttemptsFailed,
                };
                events.push(Event::ConnectFailure(their, reason));
            },
        },
        _ => {},
    }
    events
}

/// The attempts of a race: the contacts `list`, each under its token, the
/// tokens counting up from `base`.
pub open spec fn paired(base: nat, list: Seq<Endpoint>) -> Seq<(Token, Endpoint)> {
    Seq::new(list.len(), |i: int| (Token((base + i) as usize), list[i]))
}

/// The endpoints that a direct connect to a node tries: every address the
/// node handed out, over TCP.
pub open spec fn spec_endpoints(for_direct: Seq<MappedAddr>) -> Seq<Endpoint> {
    for_direct.map_values(|m: MappedAddr| Endpoint::Tcp(m.addr))
}

/// The endpoints to try for the addresses `for_direct`.
pub fn endpoints(for_direct: &Vec<MappedAddr>) -> (list: Vec<Endpoint>)
    ensures
        list@ == spec_endpoints(for_direct@),
{
    let mut list: Vec<Endpoint> = Vec::new();
    let mut i: usize = 0;
    while i < for_direct.len()
        invariant
            i <= for_direct.len(),
            list@ == spec_endpoints(for_direct@.take(i as int)),
        decreases for_direct.len() - i,
    {
        list.push(Endpoint::Tcp(for_direct[i].addr));
        i = i + 1;
    }
    list
}

/// What a node that a race was won with is to this one: a node that was
/// bootstrapped off is a bootstrap peer, one that was connected to directly
/// a node.
pub open spec fn spec_kind_of(goal: Goal) -> PeerKind {
    match goal {
        Goal::Bootstrap => PeerKind::Bootstrap,
        Goal::Connect(_) => PeerKind::Node,
    }
}

/// What a node that a race for `goal` was won with is to this one.
#[verifier::when_used_as_spec(spec_kind_of)]
pub fn kind_of(goal: Goal) -> (kind: PeerKind)
    ensures
        kind == spec_kind_of(goal),
{
    match goal {
        Goal::Bootstrap => PeerKind::Bootstrap,
        Goal::Connect(_) => PeerKind::Node,
    }
}

impl Service {
    /// Drops from the registry those of `tokens` that are registered under
    /// `context`, which is not the context of a peer.
    fn drop_tokens(&mut self, context: Context, tokens: &Vec<Token>)
        requires
            old(self).wf(),
            !old(self).reactor().states().contains_key(context),
        ensures
            final(self).wf(),
            old(self).same_settings(final(self)),
            final(self).peers() == old(self).peers(),
            final(self).reactor().next_token() == old(self).reactor().next_token(),
            final(self).reactor().next_context() == old(self).reactor().next_context(),
            final(self).reactor().states() == old(self).reactor().states(),
            final(self).reactor().contexts() == old(self).reactor().contexts().remove_keys(
                old(self).registered(context, tokens@),
            ),
            forall|t: Token| #[trigger] final(self).peer_at(t) == old(self).peer_at(t),
    {
        let mut i: usize = 0;
        while i < tokens.len()
            invariant
                i <= tokens.len(),
                self.wf(),
                old(self).wf(),
                !old(self).reactor().states().contains_key(context),
                old(self).same_settings(self),
                self.peers() == old(self).peers(),
                self.reactor().next_token() == old(self).reactor().next_token(),
                self.reactor().next_context() == old(self).reactor().next_context(),
                self.reactor().states() == old(self).reactor().states(),
                self.reactor().contexts() == old(self).reactor().contexts().remove_keys(
                    old(self).registered(context, tokens@.take(i as int)),
                ),
                forall|t: Token| #[trigger] self.peer_at(t) == old(self).peer_at(t),
            decreases tokens.len() - i,
        {
            let token = tokens[i];
            let here = match self.core.get_context(token) {
                Some(c) => c == context,
                None => false,
            };
            if here {
                let _ = self.core.remove_context(token);
            }
            proof {
                let s0 = tokens@.take(i as int);
                let s1 = tokens@.take(i + 1);
                assert forall|t: Token| s1.contains(t) <==> (s0.contains(t) || t == token) by {
                    if t == token {
                        assert(s1[i as int] == token);
                    }
                }
            }
            i = i + 1;
        }
        proof {
            assert(tokens@.take(i as int) =~= tokens@);
        }
    }

    /// Lets `op` happen to the race that owns `context`. The attempts that
    /// leave the race leave the registry, and a race that is over leaves it
    /// too. A winner stays registered, to be made a peer of.
    fn step_race(&mut self, context: Context, op: RaceOp) -> (result: Option<(Goal, RaceStep)>)
        requires
            old(self).wf(),
        ensures
            final(self).wf(),
            old(self).same_settings(final(self)),
            final(self).peers() == old(self).peers(),
            final(self).reactor().next_token() == old(self).reactor().next_token(),
            final(self).reactor().next_context() == old(self).reactor().next_context(),
            forall|t: Token| #[trigger] final(self).peer_at(t) == old(self).peer_at(t),
            match old(self).race_at(context) {
                None => result is None && final(self).reactor() == old(self).reactor(),
                Some((goal, race)) => {
                    &&& result matches Some((g, step))
                    &&& g == goal
                    &&& step@ == apply(race@, op).1
                    &&& final(self).reactor().contexts()
                        == old(self).reactor().contexts().remove_keys(
                        old(self).registered(context, leaving(op, step@)),
                    )
                    &&& if apply(race@, op).0.finished {
                        final(self).reactor().states() == old(self).reactor().states().remove(
                            context,
                        )
                    } else {
                        &&& final(self).reactor().states().dom()
                            == old(self).reactor().states().dom()
                        &&& forall|c: Context|
                            c != context && old(self).reactor().states().contains_key(c)
                                ==> #[trigger] final(self).reactor().states()[c]
                                    == old(self).reactor().states()[c]
                        &&& final(self).race_at(context) matches Some((g2, r2))
                        &&& g2 == goal
                        &&& r2@ == apply(race@, op).0
                    }
                },
            },
    {
        match self.core.get_state(context) {
            Some(State::BootstrapConnect(_)) => {},
            Some(State::ConnectAttempt(_, _)) => {},
            _ => {
                return None;
            },
        }
        let (goal, mut race) = match self.core.remove_state(context) {
            Some(State::BootstrapConnect(race)) => (Goal::Bootstrap, race),
            Some(State::ConnectAttempt(uid, race)) => (Goal::Connect(uid), race),
            _ => {
                return None;
            },
        };
        let step = match op {
            RaceOp::Failed(token) => race.failed(token),
            RaceOp::Won(token) => race.won(token),
            RaceOp::Close => race.close(),
            RaceOp::Expire => race.expire(),
            RaceOp::Cancel => race.cancel(),
        };
        let tokens = leaving_tokens(op, &step);
        self.drop_tokens(context, &tokens);
        if !race.is_finished() {
            let state = match goal {
                Goal::Bootstrap => State::BootstrapConnect(race),
                Goal::Connect(uid) => State::ConnectAttempt(uid, race),
            };
            let _ = self.core.insert_state(context, state);
            proof {
                let before = old(self).race_at(context)->Some_0.1@;
                lemma_step_adds_no_attempt(before, op);
                lemma_step_keeps_attempts_distinct(before, op);
                if let RaceOp::Failed(token) = op {
                    // The attempt that left the registry left the race.
                    lemma_remove_value_distinct(before.attempts, token);
                }
            }
        }
        Some((goal, step))
    }

    /// Registers a new race for `goal` with `count` attempts, each under a
    /// new token, all under one new context. Gives the context and the
    /// tokens; nothing, with nothing changed, when the registry cannot take
    /// them.
    fn start_race(&mut self, goal: Goal, count: usize, open: bool) -> (started: Option<
        (Context, Vec<Token>),
    >)
        requires
            old(self).wf(),
            count > 0 || open,
        ensures
            final(self).wf(),
            old(self).same_settings(final(self)),
            final(self).peers() == old(self).peers(),
            forall|t: Token| #[trigger] final(self).peer_at(t) == old(self).peer_at(t),
            match started {
                None => {
                    &&& old(self).reactor().next_context() == usize::MAX
                        || usize::MAX - old(self).reactor().next_token() < count
                    &&& final(self).reactor() == old(self).reactor()
                },
                Some((context, tokens)) => {
                    &&& context.0 == old(self).reactor().next_context()
                    &&& old(self).reactor().next_token() + count <= usize::MAX
                    &&& old(self).reactor().next_context() < usize::MAX
                    &&& final(self).reactor().next_context() == old(self).reactor().next_context()
                        + 1
                    &&& final(self).reactor().next_token() == old(self).reactor().next_token()
                        + count
                    &&& tokens@ == Seq::new(
                        count as nat,
                        |i: int| Token((old(self).reactor().next_token() + i) as usize),
                    )
                    &&& final(self).reactor().contexts()
                        == old(self).reactor().contexts().union_prefer_right(
                        Map::new(|t: Token| tokens@.contains(t), |t: Token| context),
                    )
                    &&& final(self).reactor().states().dom()
                        == old(self).reactor().states().dom().insert(context)
                    &&& forall|c: Context|
                        old(self).reactor().states().contains_key(c)
                            ==> #[trigger] final(self).reactor().states()[c]
                            == old(self).reactor().states()[c]
                    &&& final(self).race_at(context) matches Some((g, race))
                    &&& g == goal
                    &&& race@ == (RaceView { attempts: tokens@, open, finished: false })
                },
            },
    {
        if self.core.next_context_is_last() || self.core.tokens_left() < count {
            return None;
        }
        let ghost base = self.core.next_token();
        let context = match self.core.get_new_context() {
            Some(c) => c,
            None => {
                return None;
            },
        };
        let mut tokens: Vec<Token> = Vec::new();
        let mut i: usize = 0;
        while i < count
            invariant
                i <= count,
                base == old(self).reactor().next_token(),
                base + count <= usize::MAX,
                old(self).wf(),
                self.wf(),
                context.0 == old(self).reactor().next_context(),
                self.reactor().next_context() == old(self).reactor().next_context() + 1,
                self.reactor().next_token() == base + i,
                old(self).same_settings(self),
                self.peers() == old(self).peers(),
                self.reactor().states() == old(self).reactor().states(),
                tokens@ == Seq::new(i as nat, |k: int| Token((base + k) as usize)),
                self.reactor().contexts() == old(self).reactor().contexts().union_prefer_right(
                    Map::new(|t: Token| tokens@.contains(t), |t: Token| context),
                ),
                forall|t: Token| #[trigger] self.peer_at(t) == old(self).peer_at(t),
            decreases count - i,
        {
            let ghost had = tokens@;
            match self.core.get_new_token() {
                Some(token) => {
                    let _ = self.core.insert_context(token, context);
                    tokens.push(token);
                    proof {
                        assert(tokens@[i as int] == token);
                        assert forall|t: Token| tokens@.contains(t) <==> (had.contains(t) || t
                            == token) by {
                            if had.contains(t) {
                                let k = choose|k: int| 0 <= k < had.len() && had[k] == t;
                                assert(tokens@[k] == t);
                            }
                        }
                    }
                },
                None => {},
            }
            i = i + 1;
        }
        let (race, _) = Race::new(copy_tokens(&tokens), open);
        let state = match goal {
            Goal::Bootstrap => State::BootstrapConnect(race),
            Goal::Connect(uid) => State::ConnectAttempt(uid, race),
        };
        let _ = self.core.insert_state(context, state);
        Some((context, tokens))
    }

    /// How the registry `post` follows from this one when a race for `goal`
    /// over the contacts `list` is started and `started` is what is handed
    /// out.
    ///
    /// A race over no contact, to which none can join, is lost at once, and
    /// so is one that the registry has no context or not enough tokens for:
    /// nothing changes then. Otherwise every contact gets a token, counting
    /// up, all tokens are registered under one new context, and the race is
    /// the state of that context.
    pub open spec fn launched(
        &self,
        post: &Service,
        goal: Goal,
        list: Seq<Endpoint>,
        open: bool,
        started: Started,
    ) -> bool {
        if (list.len() == 0 && !open) || self.reactor().next_context() == usize::MAX
            || usize::MAX - self.reactor().next_token() < list.len() {
            &&& started.context is None
            &&& started.attempts@.len() == 0
            &&& events_view(started.events@) == lost_at_start(goal)
            &&& post.reactor() == self.reactor()
        } else {
            &&& started.context == Some(Context(self.reactor().next_context() as usize))
            &&& started.attempts@ == paired(self.reactor().next_token(), list)
            &&& started.events@.len() == 0
            &&& post.reactor().next_context() == self.reactor().next_context()
                + 1
            &&& post.reactor().next_token() == self.reactor().next_token()
                + list.len()
            &&& post.reactor().contexts() == self.reactor().contexts().union_prefer_right(
                Map::new(
                    |t: Token|
                        self.reactor().next_token() <= t.0 < self.reactor().next_token()
                            + list.len(),
                    |t: Token| Context(self.reactor().next_context() as usize),
                ),
            )
            &&& post.reactor().states().dom() == self.reactor().states().dom().insert(
                Context(self.reactor().next_context() as usize),
            )
            &&& forall|c: Context|
                self.reactor().states().contains_key(c)
                    ==> #[trigger] post.reactor().states()[c] == self.reactor().states()[c]
            &&& post.race_at(
                Context(self.reactor().next_context() as usize),
            ) matches Some((g, race))
            &&& g == goal
            &&& race@ == (RaceView {
                attempts: paired(self.reactor().next_token(), list).map_values(
                    |a: (Token, Endpoint)| a.0,
                ),
                open,
                finished: false,
            })
        }
    }

    /// Starts a race for `goal` over the contacts `list`, all at once. A
    /// race over no contact, to which none can be added, is lost at once,
    /// and so is one that the registry cannot take.
    fn launch(&mut self, goal: Goal, list: Vec<Endpoint>, open: bool) -> (started: Started)
        requires
            old(self).wf(),
        ensures
            final(self).wf(),
            old(self).same_settings(final(self)),
            final(self).peers() == old(self).peers(),
            forall|t: Token| #[trigger] final(self).peer_at(t) == old(self).peer_at(t),
            old(self).launched(final(self), goal, list@, open, started),
    {
        let lost = RaceStep::Lost { losers: Vec::new() };
        if list.len() == 0 && !open {
            return Started {
                context: None,
                attempts: Vec::new(),
                events: events_of(goal, RaceOp::Close, &lost, Uid(0)),
            };
        }
        match self.start_race(goal, list.len(), open) {
            None => Started {
                context: None,
                attempts: Vec::new(),
                events: events_of(goal, RaceOp::Close, &lost, Uid(0)),
            },
            Some((context, tokens)) => {
                let ghost base = old(self).reactor().next_token();
                let mut attempts: Vec<(Token, Endpoint)> = Vec::new();
                let mut i: usize = 0;
                while i < list.len()
                    invariant
                        i <= list.len(),
                        tokens@.len() == list@.len(),
                        base + list@.len() <= usize::MAX,
                        tokens@ == Seq::new(
                            list@.len() as nat,
                            |k: int| Token((base + k) as usize),
                        ),
                        attempts@ == paired(base, list@.take(i as int)),
                    decreases list.len() - i,
                {
                    attempts.push((tokens[i], list[i]));
                    i = i + 1;
                }
                proof {
                    assert(list@.take(i as int) =~= list@);
                    assert(tokens@ =~= paired(base, list@).map_values(|a: (Token, Endpoint)| a.0));
                    let first = Map::new(|t: Token| tokens@.contains(t), |t: Token| context);
                    let second = Map::new(
                        |t: Token| base <= t.0 < base + list@.len(),
                        |t: Token| context,
                    );
                    assert(first =~= second) by {
                        assert forall|t: Token| tokens@.contains(t) <==> (base <= t.0 < base
                            + list@.len()) by {
                            if base <= t.0 < base + list@.len() {
                                assert(tokens@[t.0 - base] == t);
                            }
                        }
                    }
                }
                Started { context: Some(context), attempts, events: Vec::new() }
            },
        }
    }

    /// Starts to bootstrap: every contact is tried at once, the cached
    /// contacts `cached` and the hard-coded ones of the configuration in
    /// turn. With `discovery`, contacts that service discovery finds can
    /// join later. A bootstrap with no contact and no discovery has failed
    /// at once, which the one event tells.
    pub fn bootstrap(&mut self, cached: &Vec<Endpoint>, discovery: bool) -> (started: Started)
        requires
            old(self).wf(),
        ensures
            final(self).wf(),
            old(self).same_settings(final(self)),
            final(self).peers() == old(self).peers(),
            forall|t: Token| #[trigger] final(self).peer_at(t) == old(self).peer_at(t),
            old(self).launched(
                final(self),
                Goal::Bootstrap,
                spec_candidates(cached@, old(self).config().hard_coded_contacts@),
                discovery,
                started,
            ),
    {
        let list = candidates(cached, &self.config.hard_coded_contacts);
        self.launch(Goal::Bootstrap, list, discovery)
    }

    /// Starts to connect directly to the node that handed out `their`:
    /// every address of it is tried at once. A connect to a node without an
    /// address has failed at once.
    pub fn connect(&mut self, their: &PubConnectionInfo) -> (started: Started)
        requires
            old(self).wf(),
        ensures
            final(self).wf(),
            old(self).same_settings(final(self)),
            final(self).peers() == old(self).peers(),
            forall|t: Token| #[trigger] final(self).peer_at(t) == old(self).peer_at(t),
            old(self).launched(
                final(self),
                Goal::Connect(their.uid),
                spec_endpoints(their.for_direct@),
                false,
                started,
            ),
    {
        let list = endpoints(&their.for_direct);
        self.launch(Goal::Connect(their.uid), list, false)
    }

    /// How the registry `post` follows from this one when `op` happens to
    /// the race that owns `context` and `outcome` is what is handed out.
    ///
    /// Without a race under the context nothing changes and nothing is
    /// handed out. Otherwise the race takes its step, the events are those
    /// of the step, and the attempts that leave the race are handed out to
    /// be closed and leave the registry. A race that is over leaves the
    /// registry with them.
    pub open spec fn stepped(
        &self,
        post: &Service,
        context: Context,
        op: RaceOp,
        outcome: Outcome,
    ) -> bool {
        match self.race_at(context) {
            None => {
                &&& outcome.events@.len() == 0
                &&& outcome.close@.len() == 0
                &&& outcome.winner is None
                &&& post.reactor() == self.reactor()
            },
            Some((goal, race)) => {
                let after = apply(race@, op).0;
                let step = apply(race@, op).1;
                &&& outcome.winner is None
                &&& events_view(outcome.events@) == race_events(goal, op, step, Uid(0))
                &&& outcome.close@ == leaving(op, step)
                &&& post.reactor().contexts() == self.reactor().contexts().remove_keys(
                    self.registered(context, leaving(op, step)),
                )
                &&& if after.finished {
                    post.reactor().states() == self.reactor().states().remove(context)
                } else {
                    &&& post.reactor().states().dom() == self.reactor().states().dom()
                    &&& forall|c: Context|
                        c != context && self.reactor().states().contains_key(c)
                            ==> #[trigger] post.reactor().states()[c]
                            == self.reactor().states()[c]
                    &&& post.race_at(context) matches Some((g2, r2))
                    &&& g2 == goal
                    &&& r2@ == after
                }
            },
        }
    }

    /// Lets `op`, which names no winner, happen to the race that owns
    /// `context`.
    fn race_outcome(&mut self, context: Context, op: RaceOp) -> (outcome: Outcome)
        requires
            old(self).wf(),
            !(op is Won),
        ensures
            final(self).wf(),
            old(self).same_settings(final(self)),
            final(self).peers() == old(self).peers(),
            final(self).reactor().next_token() == old(self).reactor().next_token(),
            final(self).reactor().next_context() == old(self).reactor().next_context(),
            forall|t: Token| #[trigger] final(self).peer_at(t) == old(self).peer_at(t),
            old(self).stepped(final(self), context, op, outcome),
    {
        match self.step_race(context, op) {
            None => Outcome { events: Vec::new(), close: Vec::new(), winner: None },
            Some((goal, step)) => {
                let events = events_of(goal, op, &step, Uid(0));
                let close = leaving_tokens(op, &step);
                Outcome { events, close, winner: None }
            },
        }
    }

    /// Notes that the attempt under `token` failed: its connection could
    /// not be opened, broke, or did not answer in time. The attempt leaves
    /// its race, which is lost when it was the last one and none can join.
    /// A token that is in no race changes nothing.
    pub fn attempt_failed(&mut self, token: Token) -> (outcome: Outcome)
        requires
            old(self).wf(),
        ensures
            final(self).wf(),
            old(self).same_settings(final(self)),
            final(self).peers() == old(self).peers(),
            final(self).reactor().next_token() == old(self).reactor().next_token(),
            final(self).reactor().next_context() == old(self).reactor().next_context(),
            forall|t: Token| #[trigger] final(self).peer_at(t) == old(self).peer_at(t),
            if old(self).reactor().contexts().contains_key(token) {
                old(self).stepped(
                    final(self),
                    old(self).reactor().contexts()[token],
                    RaceOp::Failed(token),
                    outcome,
                )
            } else {
                &&& outcome.events@.len() == 0
                &&& outcome.close@.len() == 0
                &&& outcome.winner is None
                &&& final(self).reactor() == old(self).reactor()
            },
    {
        match self.core.get_context(token) {
            None => Outcome { events: Vec::new(), close: Vec::new(), winner: None },
            Some(context) => self.race_outcome(context, RaceOp::Failed(token)),
        }
    }

    /// Notes that time ran out for the race that owns `context`: the race is
    /// lost, and what is in flight is to be closed.
    pub fn race_expired(&mut self, context: Context) -> (outcome: Outcome)
        requires
            old(self).wf(),
        ensures
            final(self).wf(),
            old(self).same_settings(final(self)),
            final(self).peers() == old(self).peers(),
            final(self).reactor().next_token() == old(self).reactor().next_token(),
            final(self).reactor().next_context() == old(self).reactor().next_context(),
            forall|t: Token| #[trigger] final(self).peer_at(t) == old(self).peer_at(t),
            old(self).stepped(final(self), context, RaceOp::Expire, outcome),
    {
        self.race_outcome(context, RaceOp::Expire)
    }

    /// Calls off the bootstrap, or the direct connect, that owns `context`:
    /// what is in flight is to be closed, and no event tells of it.
    pub fn stop_bootstrap(&mut self, context: Context) -> (outcome: Outcome)
        requires
            old(self).wf(),
        ensures
            final(self).wf(),
            old(self).same_settings(final(self)),
            final(self).peers() == old(self).peers(),
            final(self).reactor().next_token() == old(self).reactor().next_token(),
            final(self).reactor().next_context() == old(self).reactor().next_context(),
            forall|t: Token| #[trigger] final(self).peer_at(t) == old(self).peer_at(t),
            old(self).stepped(final(self), context, RaceOp::Cancel, outcome),
            outcome.events@.len() == 0,
    {
        let outcome = self.race_outcome(context, RaceOp::Cancel);
        proof {
            assert(events_view(outcome.events@).len() == outcome.events@.len());
        }
        outcome
    }

    /// Notes that service discovery will find no more contacts for the
    /// bootstrap that owns `context`. The bootstrap is lost when nothing is
    /// in flight.
    pub fn discovery_ended(&mut self, context: Context) -> (outcome: Outcome)
        requires
            old(self).wf(),
        ensures
            final(self).wf(),
            old(self).same_settings(final(self)),
            final(self).peers() == old(self).peers(),
            final(self).reactor().next_token() == old(self).reactor().next_token(),
            final(self).reactor().next_context() == old(self).reactor().next_context(),
            forall|t: Token| #[trigger] final(self).peer_at(t) == old(self).peer_at(t),
            old(self).stepped(final(self), context, RaceOp::Close, outcome),
    {
        self.race_outcome(context, RaceOp::Close)
    }

    /// What the success of the attempt `token` amounts to for the race
    /// that owns `context`. A direct connect is won only by the node it was
    /// started for and only with the nonce of the two nodes; any other
    /// handshake counts as a failed attempt. So does a success that the
    /// registry has no context left for.
    pub open spec fn success_op(
        &self,
        context: Context,
        token: Token,
        uid: Uid,
        nonce: u64,
    ) -> RaceOp {
        match self.race_at(context) {
            Some((Goal::Connect(their), _)) if their != uid || !spec_retains(
                self.our_uid(),
                their,
                nonce,
            ) => RaceOp::Failed(token),
            _ => if self.reactor().next_context() == usize::MAX {
                RaceOp::Failed(token)
            } else {
                RaceOp::Won(token)
            },
        }
    }

    /// Notes that the attempt under `token` succeeded: the handshake with
    /// the node `uid` completed over it and carried `nonce`.
    ///
    /// Where that wins the race, the other attempts are handed out to be
    /// closed and the socket becomes a peer, as `promote` does: of two
    /// sockets to the same node only the one with the lower nonce stays, and
    /// the other is handed out to be closed as well. Where it does not win,
    /// the attempt has failed. A token that is in no race changes nothing.
    pub fn attempt_succeeded(&mut self, token: Token, uid: Uid, nonce: u64) -> (outcome: Outcome)
        requires
            old(self).wf(),
        ensures
            final(self).wf(),
            old(self).same_settings(final(self)),
            final(self).reactor().next_token() == old(self).reactor().next_token(),
            final(self).reactor().next_context() == (if outcome.winner is Some
                && old(self).new_socket_stays(uid, token, nonce) {
                old(self).reactor().next_context() + 1
            } else {
                old(self).reactor().next_context()
            }),
            if !old(self).reactor().contexts().contains_key(token) {
                &&& outcome.events@.len() == 0
                &&& outcome.close@.len() == 0
                &&& outcome.winner is None
                &&& final(self).peers() == old(self).peers()
                &&& final(self).reactor() == old(self).reactor()
            } else {
                let context = old(self).reactor().contexts()[token];
                let op = old(self).success_op(context, token, uid, nonce);
                match old(self).race_at(context) {
                    None => {
                        &&& outcome.events@.len() == 0
                        &&& outcome.close@.len() == 0
                        &&& outcome.winner is None
                        &&& final(self).peers() == old(self).peers()
                        &&& final(self).reactor() == old(self).reactor()
                    },
                    Some((goal, race)) => match apply(race@, op).1 {
                        Step::Won { winner, losers } => {
                            let stays = old(self).new_socket_stays(uid, token, nonce);
                            &&& winner == token
                            &&& outcome.winner == Some(token)
                            &&& events_view(outcome.events@) == race_events(
                                goal,
                                op,
                                apply(race@, op).1,
                                uid,
                            )
                            &&& outcome.close@ == losers + (if !old(self).peers().contains_key(
                                uid,
                            ) {
                                Seq::<Token>::empty()
                            } else if stays {
                                seq![old(self).peers()[uid]]
                            } else {
                                seq![token]
                            })
                            &&& final(self).peers() == (if stays {
                                old(self).peers().insert(uid, token)
                            } else {
                                old(self).peers()
                            })
                            &&& stays ==> {
                                &&& final(self).peer_at(token) matches Some(p)
                                &&& p@ == (PeerView {
                                    token,
                                    uid,
                                    kind: spec_kind_of(goal),
                                    nonce,
                                    socket: SocketView::fresh(old(self).high_water()),
                                })
                            }
                            &&& forall|k: int|
                                0 <= k < outcome.close@.len()
                                    ==> !final(self).reactor().contexts().contains_key(
                                    #[trigger] outcome.close@[k],
                                )
                            &&& !final(self).reactor().states().contains_key(context)
                            &&& forall|c: Context|
                                final(self).reactor().states().contains_key(c) && (stays ==> c
                                    != final(self).reactor().contexts()[token])
                                    ==> #[trigger] final(self).reactor().states()[c]
                                        == old(self).reactor().states()[c]
                            &&& forall|other: Uid|
                                other != uid && old(self).peers().contains_key(other)
                                    ==> #[trigger] final(self).peer_at(old(self).peers()[other])
                                    == old(self).peer_at(old(self).peers()[other])
                        },
                        _ => {
                            &&& final(self).peers() == old(self).peers()
                            &&& forall|t: Token| #[trigger]
                                final(self).peer_at(t) == old(self).peer_at(t)
                            &&& old(self).stepped(final(self), context, op, outcome)
                        },
                    },
                }
            },
    {
        let context = match self.core.get_context(token) {
            Some(c) => c,
            None => {
                return Outcome { events: Vec::new(), close: Vec::new(), winner: None };
            },
        };
        let refused = match self.core.get_state(context) {
            Some(State::BootstrapConnect(_)) => false,
            Some(State::ConnectAttempt(their, _)) => their.0 != uid.0 || !retains(
                self.our_uid,
                *their,
                nonce,
            ),
            _ => {
                return Outcome { events: Vec::new(), close: Vec::new(), winner: None };
            },
        };
        if refused || self.core.next_context_is_last() {
            return self.race_outcome(context, RaceOp::Failed(token));
        }
        let op = RaceOp::Won(token);
        let ghost race = old(self).race_at(context)->Some_0.1@;
        proof {
            lemma_remove_value_distinct(race.attempts, token);
        }
        let (goal, step) = match self.step_race(context, op) {
            Some(stepped) => stepped,
            None => {
                return Outcome { events: Vec::new(), close: Vec::new(), winner: None };
            },
        };
        let events = events_of(goal, op, &step, uid);
        let mut close = leaving_tokens(op, &step);
        let mut winner: Option<Token> = None;
        match step {
            RaceStep::Won { .. } => {
                winner = Some(token);
                let ghost mid = *self;
                let ghost losers = close@;
                proof {
                    assert forall|k: int|
                        0 <= k < losers.len() implies !mid.reactor().contexts().contains_key(
                        #[trigger] losers[k],
                    ) by {
                        lemma_remove_value_subset(race.attempts, token, losers[k]);
                    }
                }
                match self.promote(token, uid, kind_of(goal), nonce) {
                    Promotion::Connected { replaced: Some(t) } => {
                        close.push(t);
                    },
                    Promotion::Duplicate => {
                        close.push(token);
                    },
                    _ => {},
                }
            },
            _ => {},
        }
        Outcome { events, close, winner }
    }

    /// Lets the contact at `addr`, which service discovery found, join the
    /// bootstrap that owns `context`. Gives the connection to open, under
    /// its token; nothing, with nothing changed, when no bootstrap owns the
    /// context, when the bootstrap takes no more contacts, and when no token
    /// is left.
    pub fn discovered(&mut self, context: Context, addr: SocketAddr) -> (attempt: Option<
        (Token, Endpoint),
    >)
        requires
            old(self).wf(),
        ensures
            final(self).wf(),
            old(self).same_settings(final(self)),
            final(self).peers() == old(self).peers(),
            final(self).reactor().next_context() == old(self).reactor().next_context(),
            forall|t: Token| #[trigger] final(self).peer_at(t) == old(self).peer_at(t),
            match old(self).race_at(context) {
                Some((Goal::Bootstrap, race)) if race@.open && old(self).reactor().next_token()
                    < usize::MAX => {
                    let token = Token(old(self).reactor().next_token() as usize);
                    &&& attempt == Some((token, Endpoint::Tcp(addr)))
                    &&& final(self).reactor().next_token() == old(self).reactor().next_token() + 1
                    &&& final(self).reactor().contexts() == old(self).reactor().contexts().insert(
                        token,
                        context,
                    )
                    &&& final(self).reactor().states().dom() == old(self).reactor().states().dom()
                    &&& forall|c: Context|
                        c != context && old(self).reactor().states().contains_key(c)
                            ==> #[trigger] final(self).reactor().states()[c]
                                == old(self).reactor().states()[c]
                    &&& final(self).race_at(context) matches Some((Goal::Bootstrap, joined))
                    &&& joined@ == (RaceView { attempts: race@.attempts.push(token), ..race@ })
                },
                _ => attempt is None && final(self).reactor() == old(self).reactor(),
            },
    {
        match self.core.get_state(context) {
            Some(State::BootstrapConnect(race)) => {
                if !race.is_open() {
                    return None;
                }
            },
            _ => {
                return None;
            },
        }
        if self.core.next_token_is_last() {
            return None;
        }
        let token = match self.core.get_new_token() {
            Some(t) => t,
            None => {
                return None;
            },
        };
        match self.core.remove_state(context) {
            Some(State::BootstrapConnect(race)) => {
                let mut race = race;
                let _ = race.add(token);
                let _ = self.core.insert_context(token, context);
                let _ = self.core.insert_state(context, State::BootstrapConnect(race));
                Some((token, Endpoint::Tcp(addr)))
            },
            _ => None,
        }
    }
}

/// The attempts that leave a race with `step`, as a list.
fn leaving_tokens(op: RaceOp, step: &RaceStep) -> (tokens: Vec<Token>)
    ensures
        tokens@ == leaving(op, step@),
{
    let mut tokens: Vec<Token> = Vec::new();
    match step {
        RaceStep::Won { losers, .. } => {
            tokens = copy_tokens(losers);
        },
        RaceStep::Lost { losers } => {
            tokens = copy_tokens(losers);
            match op {
                RaceOp::Failed(token) => {
                    tokens.push(token);
                },
                _ => {},
            }
        },
        RaceStep::Cancelled { losers } => {
            tokens = copy_tokens(losers);
        },
        RaceStep::Pending => {
            match op {
                RaceOp::Failed(token) => {
                    tokens.push(token);
                },
                _ => {},
            }
        },
        RaceStep::Ignored => {},
    }
    tokens
}

/// A copy of `tokens`.
fn copy_tokens(tokens: &Vec<Token>) -> (copy: Vec<Token>)
    ensures
        copy@ == tokens@,
{
    let mut copy: Vec<Token> = Vec::new();
    let mut i: usize = 0;
    while i < tokens.len()
        invariant
            i <= tokens.len(),
            copy@ == tokens@.take(i as int),
        decreases tokens.len() - i,
    {
        copy.push(tokens[i]);
        i = i + 1;
    }
    copy
}

/// No step brings an attempt into a race: what is in flight afterwards was
/// in flight before.
pub proof fn lemma_step_adds_no_attempt(race: RaceView, op: RaceOp)
    ensures
        forall|k: int|
            0 <= k < apply(race, op).0.attempts.len() ==> race.attempts.contains(
                #[trigger] apply(race, op).0.attempts[k],
            ),
{
    let after = apply(race, op).0.attempts;
    assert forall|k: int| 0 <= k < after.len() implies race.attempts.contains(
        #[trigger] after[k],
    ) by {
        if let RaceOp::Failed(token) = op {
            race.attempts.index_of_first_ensures(token);
        }
    }
}

/// A step leaves the attempts of a race distinct.
pub proof fn lemma_step_keeps_attempts_distinct(race: RaceView, op: RaceOp)
    requires
        race.attempts.no_duplicates(),
    ensures
        apply(race, op).0.attempts.no_duplicates(),
{
    match op {
        RaceOp::Failed(token) => lemma_remove_value_distinct(race.attempts, token),
        RaceOp::Won(token) => lemma_remove_value_distinct(race.attempts, token),
        _ => {},
    }
}

/// What is left of a list of distinct values after one was taken out is
/// distinct and does not hold that value.
proof fn lemma_remove_value_distinct(list: Seq<Token>, value: Token)
    requires
        list.no_duplicates(),
    ensures
        list.remove_value(value).no_duplicates(),
        !list.remove_value(value).contains(value),
{
    list.index_of_first_ensures(value);
    let left = list.remove_value(value);
    if list.contains(value) {
        assert forall|a: int, b: int|
            0 <= a < left.len() && 0 <= b < left.len() && a != b implies left[a] != left[b] by {}
        assert forall|a: int| 0 <= a < left.len() implies left[a] != value by {}
    }
}

/// What is left of a list after a value was taken out was in the list.
proof fn lemma_remove_value_subset(list: Seq<Token>, value: Token, other: Token)
    requires
        list.remove_value(value).contains(other),
    ensures
        list.contains(other),
{
    list.index_of_first_ensures(value);
    let left = list.remove_value(value);
    let k = choose|k: int| 0 <= k < left.len() && left[k] == other;
    if list.contains(value) {
        let i = list.index_of_first(value)->Some_0;
        assert(left[k] == list[if k < i { k } else { k + 1 }]);
    }
}

} // verus!
