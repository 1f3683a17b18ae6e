//! The service: the reactor's registry together with the peers that are
//! connected, and the commands that act on them.
//!
//! The commands are grouped by what they deal with: `peers` holds the life
//! of connected peers, `listener` the connections that come in, `races` the
//! bootstrap and the direct connect, `beacon` service discovery.

pub mod beacon;
pub mod listener;
pub mod peers;
pub mod races;

use std::collections::HashMap;
use vstd::prelude::*;
use crate::common::{Context, Core, Kind, State, Token};
use crate::config::Config;
use crate::event::{Event, EventView, NatError, PrivConnectionInfo, PubConnectionInfo};
use crate::net::addr::MappedAddr;
use crate::net::peer::{Peer, Uid};
use crate::net::race::Race;
use crate::net::service_discovery::ServiceDiscovery;

verus! {

/// The state of a service.
pub struct Service {
    our_uid: Uid,
    config: Config,
    core: Core<State>,
    peers: HashMap<u64, Token>,
    accept_bootstrap: bool,
    high_water: usize,
}

/// What a race in the registry is run for.
#[derive(Clone, Copy, Debug, PartialEq, Eq, Structural)]
pub enum Goal {
    /// To bootstrap off one of the known contacts.
    Bootstrap,
    /// To connect directly to this node.
    Connect(Uid),
}

/// The peer that a state is, if it is one.
pub open spec fn as_peer(state: Option<State>) -> Option<Peer> {
    match state {
        Some(State::Peer(peer)) => Some(peer),
        _ => None,
    }
}

/// The race that a state is, with what it is run for.
pub open spec fn as_race(state: Option<State>) -> Option<(Goal, Race)> {
    match state {
        Some(State::BootstrapConnect(race)) => Some((Goal::Bootstrap, race)),
        Some(State::ConnectAttempt(uid, race)) => Some((Goal::Connect(uid), race)),
        _ => None,
    }
}

/// The discovery instance that a state is, if it is one.
pub open spec fn as_discovery(state: Option<State>) -> Option<ServiceDiscovery> {
    match state {
        Some(State::ServiceDiscovery(discovery)) => Some(discovery),
        _ => None,
    }
}

impl Service {
    /// The registry of the reactor.
    pub closed spec fn reactor(&self) -> Core<State> {
        self.core
    }

    /// The token of every connected peer, by the peer's identifier.
    pub closed spec fn peers(&self) -> Map<Uid, Token> {
        Map::new(|uid: Uid| self.peers@.contains_key(uid.0), |uid: Uid| self.peers@[uid.0])
    }

    /// This node's identifier.
    pub closed spec fn our_uid(&self) -> Uid {
        self.our_uid
    }

    /// The configuration the service was started with.
    pub closed spec fn config(&self) -> Config {
        self.config
    }

    /// Whether nodes may bootstrap off this one.
    pub closed spec fn accepts_bootstrap(&self) -> bool {
        self.accept_bootstrap
    }

    /// The high-water mark that the sockets of new peers get.
    pub closed spec fn high_water(&self) -> nat {
        self.high_water as nat
    }

    /// The peer whose socket is registered under `token`, if the token
    /// belongs to a peer.
    pub open spec fn peer_at(&self, token: Token) -> Option<Peer> {
        as_peer(self.reactor().owner(token))
    }

    /// The race that owns `context`, with what it is run for.
    pub open spec fn race_at(&self, context: Context) -> Option<(Goal, Race)> {
        if self.reactor().states().contains_key(context) {
            as_race(Some(self.reactor().states()[context]))
        } else {
            None
        }
    }

    /// The discovery instance whose socket is registered under `token`, if
    /// the token belongs to one.
    pub open spec fn discovery_at(&self, token: Token) -> Option<ServiceDiscovery> {
        as_discovery(self.reactor().owner(token))
    }

    /// The tokens among `tokens` that are registered under `context`.
    pub open spec fn registered(&self, context: Context, tokens: Seq<Token>) -> Set<Token> {
        Set::new(
            |t: Token|
                tokens.contains(t) && self.reactor().contexts().contains_key(t)
                    && self.reactor().contexts()[t] == context,
        )
    }

    /// Whether `post` has the settings of this service: the identifier, the
    /// configuration, the high-water mark, and whether nodes may bootstrap
    /// off it.
    pub open spec fn same_settings(&self, post: &Service) -> bool {
        &&& post.our_uid() == self.our_uid()
        &&& post.config() == self.config()
        &&& post.accepts_bootstrap() == self.accepts_bootstrap()
        &&& post.high_water() == self.high_water()
    }

    /// Whether `post` has the states of this registry, but for the state of
    /// `context`, which may have changed: the same contexts have a state,
    /// and the state of every other context is what it was.
    pub open spec fn same_states_but(&self, post: &Service, context: Context) -> bool {
        &&& post.reactor().states().dom() =~= self.reactor().states().dom()
        &&& forall|c: Context|
            c != context && self.reactor().states().contains_key(c)
                ==> #[trigger] post.reactor().states()[c] == self.reactor().states()[c]
    }

    /// The registry and the peers agree: a token owned by a peer is the one
    /// the peer is known under, and every known peer owns its token. Every
    /// race in the registry is under way, and its attempts are distinct and
    /// registered under its context. No context is in use that was not
    /// handed out.
    pub open spec fn wf(&self) -> bool {
        &&& self.reactor().wf()
        &&& forall|t: Token| #[trigger]
            self.reactor().contexts().contains_key(t) ==> self.reactor().contexts()[t].0
                < self.reactor().next_context()
        &&& forall|c: Context| #[trigger]
            self.reactor().states().contains_key(c) ==> c.0 < self.reactor().next_context()
        &&& forall|t: Token| #[trigger]
            self.reactor().contexts().contains_key(t) ==> (self.peer_at(t) matches Some(p) ==> {
                &&& p.wf()
                &&& p@.token == t
                &&& self.peers().contains_key(p@.uid)
                &&& self.peers()[p@.uid] == t
            })
        &&& forall|uid: Uid| #[trigger]
            self.peers().contains_key(uid) ==> {
                &&& self.reactor().contexts().contains_key(self.peers()[uid])
                &&& self.peer_at(self.peers()[uid]) matches Some(p)
                &&& p@.uid == uid
            }
        &&& forall|c: Context| #[trigger]
            self.reactor().states().contains_key(c) ==> (self.race_at(c) matches Some(
                (_, race),
            ) ==> {
                &&& race.wf()
                &&& !race@.finished
                &&& race@.attempts.no_duplicates()
                &&& forall|k: int|
                    0 <= k < race@.attempts.len() ==> {
                        &&& self.reactor().contexts().contains_key(#[trigger] race@.attempts[k])
                        &&& self.reactor().contexts()[race@.attempts[k]] == c
                    }
            })
    }

    /// A service with an empty registry and no peers, which lets nodes
    /// bootstrap off it.
    pub fn new(our_uid: Uid, config: Config, high_water: usize) -> (service: Service)
        ensures
            service.wf(),
            service.our_uid() == our_uid,
            service.config() == config,
            service.accepts_bootstrap(),
            service.high_water() == high_water,
            service.peers() == Map::<Uid, Token>::empty(),
            service.reactor().contexts() == Map::<Token, Context>::empty(),
            service.reactor().states() == Map::<Context, State>::empty(),
            service.reactor().next_token() == 0,
            service.reactor().next_context() == 0,
    {
        let service = Service {
            our_uid,
            config,
            core: Core::new(),
            peers: HashMap::new(),
            accept_bootstrap: true,
            high_water,
        };
        service
    }

    /// Whether a peer with the identifier `uid` is connected.
    pub fn is_connected(&self, uid: Uid) -> (connected: bool)
        ensures
            connected == self.peers().contains_key(uid),
    {
        self.peers.contains_key(&uid.0)
    }

    /// The token of the peer `uid`.
    pub fn token_of(&self, uid: Uid) -> (token: Option<Token>)
        ensures
            token == (if self.peers().contains_key(uid) {
                Some(self.peers()[uid])
            } else {
                None
            }),
    {
        match self.peers.get(&uid.0) {
            Some(token) => Some(*token),
            None => None,
        }
    }

    /// The number of connected peers.
    pub fn peer_count(&self) -> (count: usize)
        ensures
            count == self.peers().dom().len(),
    {
        proof {
            lemma_peer_count(self.peers@, self.peers());
        }
        self.peers.len()
    }

    /// Allows or forbids nodes to bootstrap off this one.
    pub fn set_accept_bootstrap(&mut self, accept: bool)
        ensures
            final(self).accepts_bootstrap() == accept,
            final(self).wf() == old(self).wf(),
            final(self).reactor() == old(self).reactor(),
            final(self).peers() == old(self).peers(),
            final(self).our_uid() == old(self).our_uid(),
            final(self).config() == old(self).config(),
            final(self).high_water() == old(self).high_water(),
    {
        self.accept_bootstrap = accept;
    }

    /// Registers `state`, which is no peer, under a new token and a new
    /// context. Gives the two, or nothing, with nothing changed, when the
    /// reactor has no token or no context left.
    fn register(&mut self, state: State) -> (registered: Option<(Token, Context)>)
        requires
            old(self).wf(),
            !(state is Peer),
            as_race(Some(state)) matches Some((_, race)) ==> race.wf() && !race@.finished
                && race@.attempts.len() == 0,
        ensures
            final(self).wf(),
            old(self).same_settings(final(self)),
            final(self).peers() == old(self).peers(),
            match registered {
                Some((token, context)) => {
                    &&& token.0 == old(self).reactor().next_token()
                    &&& context.0 == old(self).reactor().next_context()
                    &&& final(self).reactor().next_token() == old(self).reactor().next_token() + 1
                    &&& final(self).reactor().next_context() == old(self).reactor().next_context()
                        + 1
                    &&& final(self).reactor().contexts() == old(self).reactor().contexts().insert(
                        token,
                        context,
                    )
                    &&& final(self).reactor().states() == old(self).reactor().states().insert(
                        context,
                        state,
                    )
                    &&& forall|t: Token|
                        t != token ==> #[trigger] final(self).peer_at(t) == old(self).peer_at(t)
                },
                None => {
                    &&& old(self).reactor().next_token() == usize::MAX
                        || old(self).reactor().next_context() == usize::MAX
                    &&& final(self).reactor() == old(self).reactor()
                },
            },
    {
        if self.core.next_context_is_last() || self.core.next_token_is_last() {
            return None;
        }
        let token = match self.core.get_new_token() {
            Some(t) => t,
            None => {
                return None;
            },
        };
        let context = match self.core.get_new_context() {
            Some(c) => c,
            None => {
                return None;
            },
        };
        let _ = self.core.insert_context(token, context);
        let _ = self.core.insert_state(context, state);
        Some((token, context))
    }

    /// Ends the listener, the accepted connection or the beacon under
    /// `token`: the token and the state leave the registry, and the socket
    /// is to be deregistered and closed. Tells whether the token belonged
    /// to one of these; a token of a peer or of a race is left alone.
    pub fn state_ended(&mut self, token: Token) -> (ended: bool)
        requires
            old(self).wf(),
        ensures
            final(self).wf(),
            old(self).same_settings(final(self)),
            final(self).peers() == old(self).peers(),
            final(self).reactor().next_token() == old(self).reactor().next_token(),
            final(self).reactor().next_context() == old(self).reactor().next_context(),
            forall|t: Token| #[trigger] final(self).peer_at(t) == old(self).peer_at(t),
            ended == (old(self).reactor().owner(token) matches Some(state) && (state is Listener
                || state is BootstrapAcceptor || state is ServiceDiscovery)),
            if ended {
                &&& final(self).reactor().contexts() == old(self).reactor().contexts().remove(
                    token,
                )
                &&& final(self).reactor().states() == old(self).reactor().states().remove(
                    old(self).reactor().contexts()[token],
                )
            } else {
                final(self).reactor() == old(self).reactor()
            },
    {
        let context = match self.core.get_context(token) {
            Some(c) => c,
            None => {
                return false;
            },
        };
        match self.core.get_state(context) {
            Some(State::Listener(_)) => {},
            Some(State::BootstrapAcceptor(_)) => {},
            Some(State::ServiceDiscovery(_)) => {},
            _ => {
                return false;
            },
        }
        let _ = self.core.terminate(token);
        true
    }

    /// The kind of the state that owns `token`, by which a readiness report
    /// for the token's socket is dispatched.
    pub fn owner_kind(&self, token: Token) -> (kind: Option<Kind>)
        ensures
            kind == (match self.reactor().owner(token) {
                Some(state) => Some(state.spec_kind()),
                None => None,
            }),
    {
        let context = match self.core.get_context(token) {
            Some(c) => c,
            None => {
                return None;
            },
        };
        match self.core.get_state(context) {
            Some(state) => Some(state.kind()),
            None => None,
        }
    }

    /// Shuts the service down: every token and every state leaves the
    /// registry, and no peer is connected any more. Gives the tokens that
    /// were registered, whose sockets are to be deregistered and closed. No
    /// event tells of it.
    pub fn shutdown(&mut self) -> (released: Vec<Token>)
        requires
            old(self).wf(),
        ensures
            final(self).wf(),
            old(self).same_settings(final(self)),
            final(self).peers() == Map::<Uid, Token>::empty(),
            final(self).reactor().contexts() == Map::<Token, Context>::empty(),
            final(self).reactor().states() == Map::<Context, State>::empty(),
            final(self).reactor().next_token() == old(self).reactor().next_token(),
            final(self).reactor().next_context() == old(self).reactor().next_context(),
            released@ == old(self).reactor().registered_below(old(self).reactor().next_token()),
            forall|t: Token|
                old(self).reactor().contexts().contains_key(t) <==> #[trigger] released@.contains(
                    t,
                ),
    {
        let released = self.core.shutdown();
        self.peers.clear();
        released
    }

    /// The answer to the request `result_token` for connection info, once
    /// the node's mappings were looked for: this node's identifier with the
    /// mappings found and `secret`, or the reason why none were found.
    pub fn prepare_connection_info(
        &self,
        result_token: u32,
        mapped: Result<Vec<MappedAddr>, NatError>,
        secret: u64,
    ) -> (event: Event)
        ensures
            event@ == (EventView::ConnectionInfoPrepared {
                result_token,
                result: match mapped {
                    Ok(for_direct) => Ok((self.our_uid(), for_direct@, secret)),
                    Err(e) => Err(e),
                },
            }),
    {
        let result = match mapped {
            Ok(for_direct) => Ok(PrivConnectionInfo { uid: self.our_uid, for_direct, secret }),
            Err(e) => Err(e),
        };
        Event::ConnectionInfoPrepared { result_token, result }
    }

    /// What a remote node needs of the connection info `ours` to connect to
    /// this node: everything but the secret.
    pub fn to_pub_connection_info(ours: &PrivConnectionInfo) -> (theirs: PubConnectionInfo)
        ensures
            theirs.uid == ours.uid,
            theirs.for_direct@ == ours.for_direct@,
    {
        let mut for_direct: Vec<MappedAddr> = Vec::new();
        let mut i: usize = 0;
        while i < ours.for_direct.len()
            invariant
                i <= ours.for_direct.len(),
                for_direct@ == ours.for_direct@.take(i as int),
            decreases ours.for_direct.len() - i,
        {
            for_direct.push(ours.for_direct[i]);
            i = i + 1;
        }
        PubConnectionInfo { uid: ours.uid, for_direct }
    }
}

/// As many peers are known by identifier as by the number of the
/// identifier.
proof fn lemma_peer_count(raw: Map<u64, Token>, peers: Map<Uid, Token>)
    requires
        raw.dom().finite(),
        peers.dom() =~= Set::new(|uid: Uid| raw.contains_key(uid.0)),
    ensures
        peers.dom().finite(),
        peers.dom().len() == raw.dom().len(),
{
    let f = |n: u64| Uid(n);
    assert(raw.dom().map(f) =~= peers.dom());
    vstd::set_lib::lemma_map_size(raw.dom(), peers.dom(), f);
}

/// While a peer is connected, exactly one token of the reactor owns its
/// socket: the token the peer is known under is owned by it, and a token
/// that is owned by a peer with the same identifier is that very token.
pub proof fn lemma_one_token_per_peer(service: &Service, uid: Uid, token: Token)
    requires
        service.wf(),
        service.peers().contains_key(uid),
    ensures
        service.peer_at(service.peers()[uid]) matches Some(p) && p@.uid == uid,
        (service.peer_at(token) matches Some(p) && p@.uid == uid) ==> token == service.peers()[uid],
{
}

/// No two connected peers carry the same identifier, and no two share a
/// token.
pub proof fn lemma_peers_are_distinct(service: &Service, a: Uid, b: Uid)
    requires
        service.wf(),
        service.peers().contains_key(a),
        service.peers().contains_key(b),
        a != b,
    ensures
        service.peers()[a] != service.peers()[b],
{
}

} // verus!
