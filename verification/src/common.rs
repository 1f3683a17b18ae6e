//! The reactor's bookkeeping: tokens, contexts, readiness sets and the
//! registry that maps them to state objects.

use std::collections::HashMap;
use vstd::prelude::*;
use crate::net::addr::SocketAddr;
use crate::net::peer::{Peer, Uid};
use crate::net::race::Race;
use crate::net::service_discovery::ServiceDiscovery;

verus! {

/// A stable key for one registered socket.
#[derive(Clone, Copy, Debug, PartialEq, Eq, Structural, Hash)]
pub struct Token(pub usize);

/// A key that ties the tokens of logically related sockets to one state.
#[derive(Clone, Copy, Debug, PartialEq, Eq, Structural, Hash)]
pub struct Context(pub usize);

/// A set of readiness conditions, either reported for a socket or asked of
/// the poller for it.
#[derive(Clone, Copy, Debug, PartialEq, Eq, Structural, Hash)]
pub struct EventSet {
    pub readable: bool,
    pub writable: bool,
    pub error: bool,
    pub hup: bool,
}

impl EventSet {
    /// Errors, hang-ups and incoming data: what every state listens for.
    pub open spec fn spec_listening() -> EventSet {
        EventSet { readable: true, writable: false, error: true, hup: true }
    }

    /// The set that a socket with nothing to send is registered for.
    #[verifier::when_used_as_spec(spec_listening)]
    pub fn listening() -> (set: EventSet)
        ensures
            set == Self::spec_listening(),
    {
        EventSet { readable: true, writable: false, error: true, hup: true }
    }

    /// The listening set, with writability added while `pending` output waits.
    pub open spec fn spec_interest(pending: bool) -> EventSet {
        EventSet { readable: true, writable: pending, error: true, hup: true }
    }

    /// The set that a socket is registered for, which has something to
    /// send or not.
    #[verifier::when_used_as_spec(spec_interest)]
    pub fn interest(pending: bool) -> (set: EventSet)
        ensures
            set == Self::spec_interest(pending),
    {
        EventSet { readable: true, writable: pending, error: true, hup: true }
    }
}

/// What to do about a readiness report.
#[derive(Clone, Copy, Debug, PartialEq, Eq, Structural)]
pub enum ReadyAction {
    /// Deregister the socket and end the state.
    Terminate,
    /// Read if `read`, then, if the state is still alive, write if `write`.
    Proceed { read: bool, write: bool },
}

/// A state object of the reactor: one variant for each kind of state that
/// can own sockets.
pub enum State {
    /// The acceptor of incoming connections, bound to this port.
    Listener(u16),
    /// A connection that came in from this address and has not shaken
    /// hands yet.
    BootstrapAcceptor(SocketAddr),
    /// The race of the attempts to bootstrap off the known contacts.
    BootstrapConnect(Race),
    /// The race of the attempts to connect directly to this node.
    ConnectAttempt(Uid, Race),
    /// A connected peer.
    Peer(Peer),
    /// The LAN beacon.
    ServiceDiscovery(ServiceDiscovery),
}

/// The kinds of state.
#[derive(Clone, Copy, Debug, PartialEq, Eq, Structural, Hash)]
pub enum Kind {
    Listener,
    BootstrapAcceptor,
    BootstrapConnect,
    ConnectAttempt,
    Peer,
    ServiceDiscovery,
}

impl State {
    /// The kind of this state.
    pub open spec fn spec_kind(&self) -> Kind {
        match self {
            State::Listener(_) => Kind::Listener,
            State::BootstrapAcceptor(_) => Kind::BootstrapAcceptor,
            State::BootstrapConnect(_) => Kind::BootstrapConnect,
            State::ConnectAttempt(_, _) => Kind::ConnectAttempt,
            State::Peer(_) => Kind::Peer,
            State::ServiceDiscovery(_) => Kind::ServiceDiscovery,
        }
    }

    /// The kind of this state, by which readiness reports are dispatched.
    #[verifier::when_used_as_spec(spec_kind)]
    pub fn kind(&self) -> (kind: Kind)
        ensures
            kind == self.spec_kind(),
    {
        match self {
            State::Listener(_) => Kind::Listener,
            State::BootstrapAcceptor(_) => Kind::BootstrapAcceptor,
            State::BootstrapConnect(_) => Kind::BootstrapConnect,
            State::ConnectAttempt(_, _) => Kind::ConnectAttempt,
            State::Peer(_) => Kind::Peer,
            State::ServiceDiscovery(_) => Kind::ServiceDiscovery,
        }
    }
}

/// The registry of the reactor: which context each token belongs to and
/// which state each context owns.
///
/// Tokens come from a counter that only grows, so a token handed out is
/// never handed out again, whether or not its state is still alive.
pub struct Core<S> {
    token_counter: usize,
    context_counter: usize,
    contexts: HashMap<usize, Context>,
    states: HashMap<usize, S>,
}

impl<S> Core<S> {
    /// The context of every registered token.
    pub closed spec fn contexts(&self) -> Map<Token, Context> {
        Map::new(
            |t: Token| self.contexts@.contains_key(t.0),
            |t: Token| self.contexts@[t.0],
        )
    }

    /// The state of every context that has one.
    pub closed spec fn states(&self) -> Map<Context, S> {
        Map::new(
            |c: Context| self.states@.contains_key(c.0),
            |c: Context| self.states@[c.0],
        )
    }

    /// The number of the next token to be handed out.
    pub closed spec fn next_token(&self) -> nat {
        self.token_counter as nat
    }

    /// The number of the next context to be handed out.
    pub closed spec fn next_context(&self) -> nat {
        self.context_counter as nat
    }

    /// Every registered token is one that the counter has passed.
    pub open spec fn wf(&self) -> bool {
        forall|t: Token| #[trigger] self.contexts().contains_key(t) ==> t.0 < self.next_token()
    }

    /// The state that owns `token`, if the token is registered and its
    /// context has a state.
    pub open spec fn owner(&self, token: Token) -> Option<S> {
        if self.contexts().contains_key(token) && self.states().contains_key(
            self.contexts()[token],
        ) {
            Some(self.states()[self.contexts()[token]])
        } else {
            None
        }
    }

    /// The registered tokens below `bound`, in rising order.
    pub open spec fn registered_below(&self, bound: nat) -> Seq<Token>
        decreases bound,
    {
        if bound == 0 {
            Seq::empty()
        } else {
            let rest = self.registered_below((bound - 1) as nat);
            if self.contexts().contains_key(Token((bound - 1) as usize)) {
                rest.push(Token((bound - 1) as usize))
            } else {
                rest
            }
        }
    }

    /// Every registered token below `bound` is among `registered_below` of
    /// it, and nothing else is.
    pub proof fn lemma_registered_below(&self, bound: nat, token: Token)
        requires
            bound <= usize::MAX,
        ensures
            self.registered_below(bound).contains(token) <==> (token.0 < bound
                && self.contexts().contains_key(token)),
        decreases bound,
    {
        if bound > 0 {
            self.lemma_registered_below((bound - 1) as nat, token);
            let rest = self.registered_below((bound - 1) as nat);
            let last = Token((bound - 1) as usize);
            if self.contexts().contains_key(last) {
                let all = rest.push(last);
                assert(all[all.len() - 1] == last);
                if rest.contains(token) {
                    let k = choose|k: int| 0 <= k < rest.len() && rest[k] == token;
                    assert(all[k] == token);
                }
            }
        }
    }

    /// An empty registry, whose counters start at nought.
    pub fn new() -> (core: Core<S>)
        ensures
            core.wf(),
            core.contexts() == Map::<Token, Context>::empty(),
            core.states() == Map::<Context, S>::empty(),
            core.next_token() == 0,
            core.next_context() == 0,
    {
        let core = Core {
            token_counter: 0,
            context_counter: 0,
            contexts: HashMap::new(),
            states: HashMap::new(),
        };
        core
    }

    /// Hands out the next token, or `None` once the counter is used up.
    pub fn get_new_token(&mut self) -> (token: Option<Token>)
        ensures
            old(self).wf() ==> final(self).wf(),
            final(self).contexts() == old(self).contexts(),
            final(self).states() == old(self).states(),
            final(self).next_context() == old(self).next_context(),
            match token {
                Some(t) => {
                    &&& t.0 == old(self).next_token()
                    &&& final(self).next_token() == old(self).next_token() + 1
                    &&& old(self).wf() ==> !old(self).contexts().contains_key(t)
                },
                None => {
                    &&& old(self).next_token() == usize::MAX
                    &&& final(self).next_token() == old(self).next_token()
                },
            },
    {
        if self.token_counter == usize::MAX {
            return None;
        }
        let token = Token(self.token_counter);
        self.token_counter = self.token_counter + 1;
        assert(final(self).contexts() =~= old(self).contexts());
        Some(token)
    }

    /// Whether no token is left to hand out.
    pub fn next_token_is_last(&self) -> (last: bool)
        ensures
            last == (self.next_token() == usize::MAX),
    {
        self.token_counter == usize::MAX
    }

    /// The number of tokens that can still be handed out.
    pub fn tokens_left(&self) -> (left: usize)
        ensures
            left == usize::MAX - self.next_token(),
    {
        usize::MAX - self.token_counter
    }

    /// Whether no context is left to hand out.
    pub fn next_context_is_last(&self) -> (last: bool)
        ensures
            last == (self.next_context() == usize::MAX),
    {
        self.context_counter == usize::MAX
    }

    /// Hands out the next context, or `None` once the counter is used up.
    pub fn get_new_context(&mut self) -> (context: Option<Context>)
        ensures
            final(self).wf() == old(self).wf(),
            final(self).contexts() == old(self).contexts(),
            final(self).states() == old(self).states(),
            final(self).next_token() == old(self).next_token(),
            match context {
                Some(c) => {
                    &&& c.0 == old(self).next_context()
                    &&& final(self).next_context() == old(self).next_context() + 1
                },
                None => {
                    &&& old(self).next_context() == usize::MAX
                    &&& final(self).next_context() == old(self).next_context()
                },
            },
    {
        if self.context_counter == usize::MAX {
            return None;
        }
        let context = Context(self.context_counter);
        self.context_counter = self.context_counter + 1;
        assert(self.contexts() =~= old(self).contexts());
        Some(context)
    }

    /// Registers `token` under `context` and returns the context it had
    /// before, if any. The registry stays well formed when the token is one
    /// that was handed out.
    pub fn insert_context(&mut self, token: Token, context: Context) -> (previous: Option<Context>)
        ensures
            old(self).wf() && token.0 < old(self).next_token() ==> final(self).wf(),
            final(self).contexts() == old(self).contexts().insert(token, context),
            final(self).states() == old(self).states(),
            final(self).next_token() == old(self).next_token(),
            final(self).next_context() == old(self).next_context(),
            previous == (if old(self).contexts().contains_key(token) {
                Some(old(self).contexts()[token])
            } else {
                None
            }),
    {
        let previous = self.contexts.insert(token.0, context);
        assert(self.contexts() =~= old(self).contexts().insert(token, context));
        previous
    }

    /// Gives `context` the state `state` and returns the state it had
    /// before, if any.
    pub fn insert_state(&mut self, context: Context, state: S) -> (previous: Option<S>)
        ensures
            final(self).wf() == old(self).wf(),
            final(self).contexts() == old(self).contexts(),
            final(self).states() == old(self).states().insert(context, state),
            final(self).next_token() == old(self).next_token(),
            final(self).next_context() == old(self).next_context(),
            previous == (if old(self).states().contains_key(context) {
                Some(old(self).states()[context])
            } else {
                None
            }),
    {
        let previous = self.states.insert(context.0, state);
        assert(self.contexts() =~= old(self).contexts());
        previous
    }

    /// Forgets `token` and returns the context it belonged to, if any.
    pub fn remove_context(&mut self, token: Token) -> (removed: Option<Context>)
        ensures
            old(self).wf() ==> final(self).wf(),
            final(self).contexts() == old(self).contexts().remove(token),
            final(self).states() == old(self).states(),
            final(self).next_token() == old(self).next_token(),
            final(self).next_context() == old(self).next_context(),
            removed == (if old(self).contexts().contains_key(token) {
                Some(old(self).contexts()[token])
            } else {
                None
            }),
    {
        let removed = self.contexts.remove(&token.0);
        assert(self.contexts() =~= old(self).contexts().remove(token));
        removed
    }

    /// Drops the state of `context` from the registry and returns it, if the
    /// context had one.
    pub fn remove_state(&mut self, context: Context) -> (removed: Option<S>)
        ensures
            final(self).wf() == old(self).wf(),
            final(self).contexts() == old(self).contexts(),
            final(self).states() == old(self).states().remove(context),
            final(self).next_token() == old(self).next_token(),
            final(self).next_context() == old(self).next_context(),
            removed == (if old(self).states().contains_key(context) {
                Some(old(self).states()[context])
            } else {
                None
            }),
    {
        let removed = self.states.remove(&context.0);
        assert(self.contexts() =~= old(self).contexts());
        removed
    }

    /// The context that `token` is registered under.
    pub fn get_context(&self, token: Token) -> (context: Option<Context>)
        ensures
            context == (if self.contexts().contains_key(token) {
                Some(self.contexts()[token])
            } else {
                None
            }),
    {
        match self.contexts.get(&token.0) {
            Some(context) => Some(*context),
            None => None,
        }
    }

    /// The state of `context`.
    pub fn get_state(&self, context: Context) -> (state: Option<&S>)
        ensures
            match state {
                Some(s) => self.states().contains_key(context) && *s == self.states()[context],
                None => !self.states().contains_key(context),
            },
    {
        self.states.get(&context.0)
    }

    /// Ends the state that owns `token`: the token leaves the registry and,
    /// in the same step, so does the state of its context. Returns that
    /// state, if there was one.
    pub fn terminate(&mut self, token: Token) -> (ended: Option<S>)
        ensures
            old(self).wf() ==> final(self).wf(),
            final(self).next_token() == old(self).next_token(),
            final(self).next_context() == old(self).next_context(),
            final(self).contexts() == old(self).contexts().remove(token),
            ended == old(self).owner(token),
            final(self).states() == (if old(self).contexts().contains_key(token) {
                old(self).states().remove(old(self).contexts()[token])
            } else {
                old(self).states()
            }),
    {
        match self.remove_context(token) {
            Some(context) => self.remove_state(context),
            None => None,
        }
    }

    /// Empties the registry: every token and every state leaves it. Gives
    /// the tokens that were registered, in rising order, whose sockets are
    /// to be deregistered and closed. The counters stay, so that no token is
    /// handed out a second time.
    pub fn shutdown(&mut self) -> (released: Vec<Token>)
        ensures
            final(self).wf(),
            final(self).contexts() == Map::<Token, Context>::empty(),
            final(self).states() == Map::<Context, S>::empty(),
            final(self).next_token() == old(self).next_token(),
            final(self).next_context() == old(self).next_context(),
            released@ == old(self).registered_below(old(self).next_token()),
            old(self).wf() ==> forall|t: Token|
                old(self).contexts().contains_key(t) <==> #[trigger] released@.contains(t),
    {
        let mut released: Vec<Token> = Vec::new();
        let mut n: usize = 0;
        while n < self.token_counter
            invariant
                n <= self.token_counter,
                *self == *old(self),
                released@ == self.registered_below(n as nat),
            decreases self.token_counter - n,
        {
            if self.contexts.contains_key(&n) {
                released.push(Token(n));
            }
            n = n + 1;
        }
        proof {
            if old(self).wf() {
                assert forall|t: Token|
                    old(self).contexts().contains_key(t) <==> #[trigger] released@.contains(
                        t,
                    ) by {
                    old(self).lemma_registered_below(old(self).next_token(), t);
                }
            }
        }
        self.contexts.clear();
        self.states.clear();
        released
    }
}

} // verus!
