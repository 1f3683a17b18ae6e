//! LAN peer discovery over a UDP beacon.
//!
//! A node that looks for peers broadcasts a request carrying its own random
//! identifier. A node that listens answers each foreign request, point to
//! point, with the addresses it can be reached at by anyone. Answers that
//! come in are handed to the registered observers.
//!
//! The state here never touches the socket. The embedder receives and sends
//! the datagrams and reports each outcome; every reaction to an outcome is
//! decided here.

use std::collections::VecDeque;
use std::sync::mpsc::Sender;
use vstd::prelude::*;
use crate::common::{Context, Core, EventSet, ReadyAction, State, Token};
use crate::net::addr::{MappedAddr, SocketAddr};

verus! {

/// The port that discovery uses when none is configured.
pub const DEFAULT_PORT: u16 = 9999;

/// The size of the buffer that one incoming datagram is read into.
pub const READ_BUF_SIZE: usize = 1024;

/// The sending half of a channel of the standard library. Nothing is known
/// of a sender but its identity.
#[verifier::external_type_specification]
#[verifier::external_body]
#[verifier::reject_recursive_types(T)]
pub struct ExSender<T>(Sender<T>);

/// A discovery datagram.
#[derive(Debug, PartialEq, Eq)]
pub enum DiscoveryMsg {
    /// Sent to the broadcast address by a node that looks for peers.
    Request { guid: u64 },
    /// The answer, sent back to the asking node alone.
    Response(Vec<SocketAddr>),
}

/// What a discovery datagram says.
pub enum DiscoveryMsgView {
    Request { guid: u64 },
    Response(Seq<SocketAddr>),
}

impl View for DiscoveryMsg {
    type V = DiscoveryMsgView;

    open spec fn view(&self) -> DiscoveryMsgView {
        match self {
            DiscoveryMsg::Request { guid } => DiscoveryMsgView::Request { guid: *guid },
            DiscoveryMsg::Response(listeners) => DiscoveryMsgView::Response(listeners@),
        }
    }
}

/// Why a discovery state came to an end.
#[derive(Clone, Copy, Debug, PartialEq, Eq, Structural)]
pub enum ServiceDiscoveryError {
    /// The socket failed with something other than a transient condition.
    Io,
    /// A message could not be put into bytes.
    Serialisation,
}

/// Hands `listeners` to one observer. True when the observer took them;
/// false when its receiving end is gone.
///
/// Calls `std::sync::mpsc::Sender::send`. Whether the receiver still exists
/// is decided in another thread, so nothing is promised of the result.
#[verifier::external_body]
fn offer(observer: &Sender<Vec<SocketAddr>>, listeners: Vec<SocketAddr>) -> (accepted: bool) {
    match observer.send(listeners) {
        Ok(()) => true,
        Err(_) => false,
    }
}

/// What the socket said when it was read.
#[derive(Debug, PartialEq, Eq)]
pub enum ReadEvent {
    /// Nothing was waiting.
    NotReady,
    /// The read was interrupted before anything arrived.
    Interrupted,
    /// The read failed for good.
    Failed,
    /// A datagram arrived whose bytes are no discovery message.
    Undecodable,
    /// A message arrived from `from`.
    Message { from: SocketAddr, msg: DiscoveryMsg },
}

/// What to do after a read.
#[derive(Clone, Copy, Debug, PartialEq, Eq, Structural)]
pub enum ReadAction {
    /// Nothing more.
    Idle,
    /// A reply was queued: go on with a write.
    Reply,
    /// Deregister the socket and end the state.
    Terminate,
}

/// What the socket said when a response was sent, or why none was.
#[derive(Clone, Copy, Debug, PartialEq, Eq, Structural)]
pub enum SendOutcome {
    /// The datagram left. A datagram leaves whole or not at all.
    Sent,
    /// The socket took nothing: try again.
    NotSent,
    /// The send was interrupted.
    Interrupted,
    /// The send would have blocked.
    WouldBlock,
    /// The send failed for good.
    Failed,
    /// The response could not be put into bytes, so nothing was sent.
    Unencodable,
}

/// What to do after a write.
#[derive(Clone, Copy, Debug, PartialEq, Eq, Structural)]
pub enum WriteAction {
    /// Register the socket anew for this set, edge triggered.
    Reregister(EventSet),
    /// Deregister the socket and end the state.
    Terminate,
}

/// The addresses a response carries for the mappings `our_listeners`: those
/// of the mappings that are not NAT restricted, in their order.
pub open spec fn advertised(our_listeners: Seq<MappedAddr>) -> Seq<SocketAddr> {
    our_listeners.filter_map(
        |m: MappedAddr|
            if m.nat_restricted {
                None
            } else {
                Some(m.addr)
            },
    )
}

/// The observers that stay after an offer: those whose entry in `accepted`
/// is true, in their order. An observer without an entry does not stay.
pub open spec fn retained<T>(observers: Seq<T>, accepted: Seq<bool>) -> Seq<T>
    decreases observers.len(),
{
    if observers.len() == 0 {
        Seq::empty()
    } else {
        let rest = retained(observers.drop_last(), accepted);
        if observers.len() <= accepted.len() && accepted[observers.len() - 1] {
            rest.push(observers.last())
        } else {
            rest
        }
    }
}

/// The abstract state of a discovery instance.
pub struct ServiceDiscoveryView {
    /// The token its socket is registered under.
    pub token: Token,
    /// Where requests are broadcast to.
    pub remote_addr: SocketAddr,
    /// Whether requests of other nodes are answered.
    pub listen: bool,
    /// The nodes that wait for an answer, first come first.
    pub reply_to: Seq<SocketAddr>,
    /// The observers, in the order they were registered.
    pub observers: Seq<Sender<Vec<SocketAddr>>>,
    /// This instance's own identifier.
    pub guid: u64,
}

impl ServiceDiscoveryView {
    /// The state a fresh instance starts in.
    pub open spec fn initial(token: Token, port: u16, guid: u64) -> ServiceDiscoveryView {
        ServiceDiscoveryView {
            token,
            remote_addr: SocketAddr::spec_broadcast(port),
            listen: false,
            reply_to: Seq::empty(),
            observers: Seq::empty(),
            guid,
        }
    }

    /// The readiness set the socket is to be registered for: writable too
    /// while answers are pending.
    pub open spec fn interest(self) -> EventSet {
        EventSet::spec_interest(self.reply_to.len() > 0)
    }

    /// The state after `event` was read.
    pub open spec fn after_read(self, event: ReadEvent) -> ServiceDiscoveryView {
        match event {
            ReadEvent::Message { from, msg: DiscoveryMsg::Request { guid } } => {
                if self.listen && self.guid != guid {
                    ServiceDiscoveryView { reply_to: self.reply_to.push(from), ..self }
                } else {
                    self
                }
            },
            _ => self,
        }
    }

    /// The state after a write turn that ended with `outcome`.
    pub open spec fn after_write(self, outcome: SendOutcome) -> ServiceDiscoveryView {
        if self.reply_to.len() == 0 {
            self
        } else {
            match outcome {
                SendOutcome::Sent | SendOutcome::Failed => ServiceDiscoveryView {
                    reply_to: self.reply_to.skip(1),
                    ..self
                },
                _ => self,
            }
        }
    }
}

/// The state of one discovery instance.
pub struct ServiceDiscovery {
    token: Token,
    remote_addr: SocketAddr,
    listen: bool,
    reply_to: VecDeque<SocketAddr>,
    observers: Vec<Sender<Vec<SocketAddr>>>,
    guid: u64,
}

impl View for ServiceDiscovery {
    type V = ServiceDiscoveryView;

    closed spec fn view(&self) -> ServiceDiscoveryView {
        ServiceDiscoveryView {
            token: self.token,
            remote_addr: self.remote_addr,
            listen: self.listen,
            reply_to: self.reply_to@,
            observers: self.observers@,
            guid: self.guid,
        }
    }
}

/// A random identifier for a new instance.
///
/// Calls `rand::random::<u64>()`, which draws from the thread's generator
/// and panics only where the operating system's source of randomness
/// fails. The value is a matter of chance, so nothing is promised of it.
#[verifier::external_body]
fn random_guid() -> (guid: u64) {
    rand::random::<u64>()
}

/// Drops from `observers` each one whose entry in `accepted` is not true and
/// keeps the others in their order.
pub fn retain_accepted<T>(observers: Vec<T>, accepted: &Vec<bool>) -> (kept: Vec<T>)
    ensures
        kept@ == retained(observers@, accepted@),
{
    let ghost all = observers@;
    let mut rest = observers;
    let mut stack: Vec<T> = Vec::new();
    // Walk from the back, so that each observer is moved out by `pop`.
    while rest.len() > 0
        invariant
            rest@ == all.take(rest.len() as int),
            rest.len() <= all.len(),
            retained(all, accepted@) == retained(rest@, accepted@) + stack@.reverse(),
        decreases rest.len(),
    {
        let ghost before = rest@;
        let i = rest.len() - 1;
        match rest.pop() {
            Some(o) => {
                if i < accepted.len() && accepted[i] {
                    stack.push(o);
                }
            },
            None => {},
        }
    }
    let mut kept: Vec<T> = Vec::new();
    let ghost stacked = stack@;
    while stack.len() > 0
        invariant
            kept@ + stack@.reverse() == stacked.reverse(),
        decreases stack.len(),
    {
        match stack.pop() {
            Some(o) => {
                kept.push(o);
            },
            None => {},
        }
    }
    kept
}

impl ServiceDiscovery {
    /// A fresh instance for the socket registered under `token`, which
    /// broadcasts to `port` and calls itself `guid`. It does not listen, has
    /// no observers and owes no answers.
    pub fn new(token: Token, port: u16, guid: u64) -> (discovery: ServiceDiscovery)
        ensures
            discovery@ == ServiceDiscoveryView::initial(token, port, guid),
    {
        ServiceDiscovery {
            token,
            remote_addr: SocketAddr::broadcast(port),
            listen: false,
            reply_to: VecDeque::new(),
            observers: Vec::new(),
            guid,
        }
    }

    /// The token the socket is registered under.
    pub fn token(&self) -> (token: Token)
        ensures
            token == self@.token,
    {
        self.token
    }

    /// This instance's own identifier.
    pub fn guid(&self) -> (guid: u64)
        ensures
            guid == self@.guid,
    {
        self.guid
    }

    /// Whether requests of other nodes are answered.
    pub fn is_listening(&self) -> (listen: bool)
        ensures
            listen == self@.listen,
    {
        self.listen
    }

    /// The number of registered observers.
    pub fn observer_count(&self) -> (count: usize)
        ensures
            count == self@.observers.len(),
    {
        self.observers.len()
    }

    /// Turns answering the requests of other nodes on or off.
    pub fn set_listen(&mut self, listen: bool)
        ensures
            final(self)@ == (ServiceDiscoveryView { listen, ..old(self)@ }),
    {
        self.listen = listen;
    }

    /// The datagram that asks the network for peers: a request with this
    /// instance's identifier, and the broadcast address it goes to. The
    /// state does not change, so asking twice asks the same.
    pub fn seek_peers(&self) -> (datagram: (SocketAddr, DiscoveryMsg))
        ensures
            datagram.0 == self@.remote_addr,
            datagram.1@ == (DiscoveryMsgView::Request { guid: self@.guid }),
    {
        (self.remote_addr, DiscoveryMsg::Request { guid: self.guid })
    }

    /// Adds `obs` behind the observers already registered.
    pub fn register_observer(&mut self, obs: Sender<Vec<SocketAddr>>)
        ensures
            final(self)@ == (ServiceDiscoveryView {
                observers: old(self)@.observers.push(obs),
                ..old(self)@
            }),
    {
        self.observers.push(obs);
    }

    /// The response that answers a request while the node's mappings are
    /// `our_listeners`: it lists the mappings that are not NAT restricted.
    pub fn response(our_listeners: &Vec<MappedAddr>) -> (msg: DiscoveryMsg)
        ensures
            msg@ == DiscoveryMsgView::Response(advertised(our_listeners@)),
    {
        let mut listed: Vec<SocketAddr> = Vec::new();
        let mut i: usize = 0;
        while i < our_listeners.len()
            invariant
                i <= our_listeners.len(),
                listed@ == advertised(our_listeners@.take(i as int)),
            decreases our_listeners.len() - i,
        {
            proof {
                our_listeners@.lemma_filter_map_take_succ(
                    |m: MappedAddr|
                        if m.nat_restricted {
                            None
                        } else {
                            Some(m.addr)
                        },
                    i as int,
                );
            }
            let mapped = our_listeners[i];
            if !mapped.nat_restricted {
                listed.push(mapped.addr);
            }
            i = i + 1;
        }
        proof {
            assert(our_listeners@.take(i as int) == our_listeners@);
        }
        DiscoveryMsg::Response(listed)
    }

    /// The readiness set the socket is to be registered for.
    pub fn interest(&self) -> (set: EventSet)
        ensures
            set == self@.interest(),
    {
        EventSet::interest(self.reply_to.len() > 0)
    }

    /// The node that the next response goes to, if one waits.
    pub fn pending_reply(&self) -> (peer: Option<SocketAddr>)
        ensures
            peer == (if self@.reply_to.len() > 0 {
                Some(self@.reply_to[0])
            } else {
                None
            }),
    {
        if self.reply_to.len() > 0 {
            Some(self.reply_to[0])
        } else {
            None
        }
    }

    /// Sorts out a readiness report: an error or a hang-up ends the state;
    /// otherwise the socket is read if readable and then written if
    /// writable.
    pub fn ready(&self, event_set: EventSet) -> (action: ReadyAction)
        ensures
            action == (if event_set.error || event_set.hup {
                ReadyAction::Terminate
            } else {
                ReadyAction::Proceed { read: event_set.readable, write: event_set.writable }
            }),
    {
        if event_set.error || event_set.hup {
            ReadyAction::Terminate
        } else {
            ReadyAction::Proceed { read: event_set.readable, write: event_set.writable }
        }
    }

    /// Offers `listeners` to every observer, in the order of registration,
    /// and drops the observers that do not take them. Returns what each
    /// observer did.
    pub fn notify(&mut self, listeners: &Vec<SocketAddr>) -> (accepted: Vec<bool>)
        ensures
            accepted.len() == old(self)@.observers.len(),
            final(self)@ == (ServiceDiscoveryView {
                observers: retained(old(self)@.observers, accepted@),
                ..old(self)@
            }),
    {
        let mut accepted: Vec<bool> = Vec::new();
        let mut i: usize = 0;
        while i < self.observers.len()
            invariant
                i <= self.observers.len(),
                accepted.len() == i,
                *self == *old(self),
            decreases self.observers.len() - i,
        {
            let took = offer(&self.observers[i], listeners.clone());
            accepted.push(took);
            i = i + 1;
        }
        let mut observers: Vec<Sender<Vec<SocketAddr>>> = Vec::new();
        std::mem::swap(&mut observers, &mut self.observers);
        self.observers = retain_accepted(observers, &accepted);
        accepted
    }

    /// Reacts to what a read of the socket gave.
    ///
    /// A request of another node is queued for an answer when this node
    /// listens; a request that carries this node's own identifier is its own
    /// broadcast come back and is passed over. A response is offered to the
    /// observers, and those that do not take it are dropped. A datagram that
    /// does not decode is passed over. A read that found nothing or was
    /// interrupted changes nothing; any other failure ends the state.
    pub fn read(&mut self, event: ReadEvent) -> (action: ReadAction)
        ensures
            action == (match event {
                ReadEvent::Failed => ReadAction::Terminate,
                ReadEvent::Message { from, msg: DiscoveryMsg::Request { guid } } => {
                    if old(self)@.listen && old(self)@.guid != guid {
                        ReadAction::Reply
                    } else {
                        ReadAction::Idle
                    }
                },
                _ => ReadAction::Idle,
            }),
            match event {
                ReadEvent::Message { from, msg: DiscoveryMsg::Response(listeners) } => {
                    exists|accepted: Seq<bool>|
                        {
                            &&& accepted.len() == old(self)@.observers.len()
                            &&& final(self)@ == (ServiceDiscoveryView {
                                observers: #[trigger] retained(old(self)@.observers, accepted),
                                ..old(self)@
                            })
                        }
                },
                _ => final(self)@ == old(self)@.after_read(event),
            },
    {
        match event {
            ReadEvent::NotReady => ReadAction::Idle,
            ReadEvent::Interrupted => ReadAction::Idle,
            ReadEvent::Failed => ReadAction::Terminate,
            ReadEvent::Undecodable => ReadAction::Idle,
            ReadEvent::Message { from, msg } => {
                match msg {
                    DiscoveryMsg::Request { guid } => {
                        if self.listen && self.guid != guid {
                            self.reply_to.push_back(from);
                            ReadAction::Reply
                        } else {
                            ReadAction::Idle
                        }
                    },
                    DiscoveryMsg::Response(peer_listeners) => {
                        let _ = self.notify(&peer_listeners);
                        ReadAction::Idle
                    },
                }
            },
        }
    }

    /// Accounts for one write turn, in which the response was sent to the
    /// node at the head of the queue and the socket said `outcome`.
    ///
    /// When no node waits, nothing was sent and nothing changes. A response
    /// that left takes its node off the queue. One that the socket did not
    /// take, or whose send was interrupted or would have blocked, leaves the
    /// node at the head of the queue for the next turn. Any other failure is
    /// an error, and the node is not asked again. A response that could not
    /// be put into bytes is an error whether or not a node waits.
    ///
    /// On success the result is the set to register the socket for.
    pub fn write_impl(&mut self, outcome: SendOutcome) -> (result: Result<
        EventSet,
        ServiceDiscoveryError,
    >)
        ensures
            final(self)@ == old(self)@.after_write(outcome),
            result == (match outcome {
                SendOutcome::Unencodable => Err(ServiceDiscoveryError::Serialisation),
                SendOutcome::Failed if old(self)@.reply_to.len() > 0 => Err(
                    ServiceDiscoveryError::Io,
                ),
                _ => Ok(final(self)@.interest()),
            }),
    {
        if let SendOutcome::Unencodable = outcome {
            return Err(ServiceDiscoveryError::Serialisation);
        }
        if let Some(peer_addr) = self.reply_to.pop_front() {
            match outcome {
                SendOutcome::Sent => {},
                SendOutcome::NotSent | SendOutcome::Interrupted | SendOutcome::WouldBlock => {
                    self.reply_to.push_front(peer_addr);
                    assert(self.reply_to@ == old(self)@.reply_to);
                },
                SendOutcome::Failed => {
                    return Err(ServiceDiscoveryError::Io);
                },
                SendOutcome::Unencodable => {},
            }
        }
        Ok(EventSet::interest(self.reply_to.len() > 0))
    }

    /// One write turn: as `write_impl`, where an error ends the state.
    pub fn write(&mut self, outcome: SendOutcome) -> (action: WriteAction)
        ensures
            final(self)@ == old(self)@.after_write(outcome),
            action == (match outcome {
                SendOutcome::Unencodable => WriteAction::Terminate,
                SendOutcome::Failed if old(self)@.reply_to.len() > 0 => WriteAction::Terminate,
                _ => WriteAction::Reregister(final(self)@.interest()),
            }),
    {
        match self.write_impl(outcome) {
            Ok(event_set) => WriteAction::Reregister(event_set),
            Err(_) => WriteAction::Terminate,
        }
    }

    /// Brings up discovery on `port` with the identifier `guid`: takes a new
    /// token from `core`, creates the state for it and registers it under
    /// `context`. Returns the token, under which the socket is then to be
    /// registered for the listening set; `None`, with nothing changed, when
    /// `core` has no token left.
    pub fn start_with_guid(
        core: &mut Core<State>,
        context: Context,
        port: u16,
        guid: u64,
    ) -> (token: Option<Token>)
        ensures
            old(core).wf() ==> final(core).wf(),
            final(core).next_context() == old(core).next_context(),
            match token {
                Some(t) => {
                    &&& t.0 == old(core).next_token()
                    &&& final(core).next_token() == old(core).next_token() + 1
                    &&& final(core).contexts() == old(core).contexts().insert(t, context)
                    &&& final(core).states().dom() == old(core).states().dom().insert(context)
                    &&& forall|c: Context|
                        c != context && old(core).states().contains_key(c)
                            ==> final(core).states()[c] == old(core).states()[c]
                    &&& final(core).states()[context] matches State::ServiceDiscovery(discovery)
                    &&& discovery@ == ServiceDiscoveryView::initial(t, port, guid)
                },
                None => {
                    &&& old(core).next_token() == usize::MAX
                    &&& final(core).next_token() == old(core).next_token()
                    &&& final(core).contexts() == old(core).contexts()
                    &&& final(core).states() == old(core).states()
                },
            },
    {
        match core.get_new_token() {
            Some(token) => {
                let discovery = ServiceDiscovery::new(token, port, guid);
                let _ = core.insert_context(token, context);
                let _ = core.insert_state(context, State::ServiceDiscovery(discovery));
                Some(token)
            },
            None => None,
        }
    }

    /// Brings up discovery on `port` as `start_with_guid` does, with an
    /// identifier drawn at random.
    pub fn start(core: &mut Core<State>, context: Context, port: u16) -> (token: Option<Token>)
        ensures
            old(core).wf() ==> final(core).wf(),
            final(core).next_context() == old(core).next_context(),
            match token {
                Some(t) => {
                    &&& t.0 == old(core).next_token()
                    &&& final(core).next_token() == old(core).next_token() + 1
                    &&& final(core).contexts() == old(core).contexts().insert(t, context)
                    &&& final(core).states().dom() == old(core).states().dom().insert(context)
                    &&& forall|c: Context|
                        c != context && old(core).states().contains_key(c)
                            ==> final(core).states()[c] == old(core).states()[c]
                    &&& final(core).states()[context] matches State::ServiceDiscovery(discovery)
                    &&& discovery@ == ServiceDiscoveryView::initial(t, port, discovery@.guid)
                },
                None => {
                    &&& old(core).next_token() == usize::MAX
                    &&& final(core).next_token() == old(core).next_token()
                    &&& final(core).contexts() == old(core).contexts()
                    &&& final(core).states() == old(core).states()
                },
            },
    {
        let guid = random_guid();
        Self::start_with_guid(core, context, port, guid)
    }

    /// Ends this state: its token leaves `core` and with it the state of the
    /// token's context. The socket is to be deregistered alongside.
    pub fn terminate(&self, core: &mut Core<State>)
        ensures
            old(core).wf() ==> final(core).wf(),
            final(core).next_token() == old(core).next_token(),
            final(core).next_context() == old(core).next_context(),
            final(core).contexts() == old(core).contexts().remove(self@.token),
            final(core).states() == (if old(core).contexts().contains_key(self@.token) {
                old(core).states().remove(old(core).contexts()[self@.token])
            } else {
                old(core).states()
            }),
    {
        let _ = core.terminate(self.token);
    }
}

/// What a try to bind the discovery socket to one port gave.
#[derive(Clone, Copy, Debug, PartialEq, Eq, Structural)]
pub enum BindOutcome {
    /// The socket is bound.
    Bound,
    /// The port was refused, as a port in use is.
    Refused,
    /// No socket could be made at all.
    NoSocket,
}

/// How the search for a port goes on.
#[derive(Clone, Copy, Debug, PartialEq, Eq, Structural)]
pub enum BindStep {
    /// The search is over: the socket is bound to the port tried.
    Done,
    /// Try this port next.
    Retry(u16),
    /// The search is over without a socket.
    Failed(ServiceDiscoveryError),
}

/// One step of the search for a port, which starts at the configured port
/// and moves up by one after each refusal: what to do after the try on
/// `port` gave `outcome`. A refusal of port 65535 ends the search with an
/// error, for there is no port above it.
pub fn get_socket(port: u16, outcome: BindOutcome) -> (step: BindStep)
    ensures
        step == (match outcome {
            BindOutcome::Bound => BindStep::Done,
            BindOutcome::NoSocket => BindStep::Failed(ServiceDiscoveryError::Io),
            BindOutcome::Refused => if port == u16::MAX {
                BindStep::Failed(ServiceDiscoveryError::Io)
            } else {
                BindStep::Retry((port + 1) as u16)
            },
        }),
{
    match outcome {
        BindOutcome::Bound => BindStep::Done,
        BindOutcome::NoSocket => BindStep::Failed(ServiceDiscoveryError::Io),
        BindOutcome::Refused => {
            if port == u16::MAX {
                BindStep::Failed(ServiceDiscoveryError::Io)
            } else {
                BindStep::Retry(port + 1)
            }
        },
    }
}

/// The step `get_socket` takes after a try on `port`, when sockets can be
/// made and the port is free or not.
pub open spec fn get_socket_spec(port: u16, free: bool) -> BindStep {
    if free {
        BindStep::Done
    } else if port == u16::MAX {
        BindStep::Failed(ServiceDiscoveryError::Io)
    } else {
        BindStep::Retry((port + 1) as u16)
    }
}

/// The port that the search from `port` ends on when sockets can always be
/// made and `free` holds the ports that accept one; `None` when the search
/// ends with an error.
pub open spec fn scan(port: u16, free: Set<u16>) -> Option<u16>
    decreases u16::MAX - port,
{
    match get_socket_spec(port, free.contains(port)) {
        BindStep::Done => Some(port),
        BindStep::Retry(next) => if next > port {
            scan(next, free)
        } else {
            None
        },
        BindStep::Failed(_) => None,
    }
}

/// The search for a port ends on the lowest free port at or above the one it
/// started at, after every port between the two was refused. It ends with an
/// error exactly when no port from the start up to 65535 is free.
pub proof fn lemma_scan_finds_lowest(port: u16, free: Set<u16>)
    ensures
        match scan(port, free) {
            Some(found) => {
                &&& port <= found
                &&& free.contains(found)
                &&& forall|p: u16| port <= p < found ==> !free.contains(p)
            },
            None => forall|p: u16| port <= p ==> !free.contains(p),
        },
    decreases u16::MAX - port,
{
    if !free.contains(port) && port < u16::MAX {
        lemma_scan_finds_lowest((port + 1) as u16, free);
    }
}

/// Every address that a response lists is the address of one of the node's
/// mappings that is not NAT restricted.
pub proof fn lemma_response_lists_unrestricted_only(our_listeners: Seq<MappedAddr>)
    ensures
        forall|i: int|
            0 <= i < advertised(our_listeners).len() ==> exists|j: int|
                0 <= j < our_listeners.len() && !our_listeners[j].nat_restricted
                    && our_listeners[j].addr == #[trigger] advertised(our_listeners)[i],
{
    let f = |m: MappedAddr|
        if m.nat_restricted {
            None
        } else {
            Some(m.addr)
        };
    assert forall|i: int| 0 <= i < advertised(our_listeners).len() implies exists|j: int|
        0 <= j < our_listeners.len() && !our_listeners[j].nat_restricted && our_listeners[j].addr
            == #[trigger] advertised(our_listeners)[i] by {
        let addr = advertised(our_listeners)[i];
        our_listeners.lemma_filter_map_contains(f, addr);
    }
}

/// Every mapping of the node that is not NAT restricted has its address in
/// the response.
pub proof fn lemma_response_lists_every_unrestricted(our_listeners: Seq<MappedAddr>, j: int)
    requires
        0 <= j < our_listeners.len(),
        !our_listeners[j].nat_restricted,
    ensures
        advertised(our_listeners).contains(our_listeners[j].addr),
    decreases our_listeners.len(),
{
    let f = |m: MappedAddr|
        if m.nat_restricted {
            None
        } else {
            Some(m.addr)
        };
    let rest = our_listeners.drop_last();
    if j == our_listeners.len() - 1 {
        let out = rest.filter_map(f) + seq![our_listeners[j].addr];
        assert(out[out.len() - 1] == our_listeners[j].addr);
    } else {
        lemma_response_lists_every_unrestricted(rest, j);
        let addr = our_listeners[j].addr;
        let i = choose|i: int| 0 <= i < advertised(rest).len() && advertised(rest)[i] == addr;
        assert(advertised(our_listeners)[i] == addr);
    }
}

} // verus!
