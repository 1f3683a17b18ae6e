//! Service discovery inside the registry.

use std::sync::mpsc::Sender;
use vstd::prelude::*;
use crate::common::{Context, EventSet, ReadyAction, State, Token};
use crate::net::addr::SocketAddr;
use crate::net::service_discovery::{
    retained, DiscoveryMsg, DiscoveryMsgView, ReadAction, ReadEvent, SendOutcome,
    ServiceDiscovery, ServiceDiscoveryView, WriteAction,
};
use crate::service::Service;

verus! {

impl Service {
    /// Brings up service discovery on the configured port. Gives the token
    /// to register the beacon's socket under, for the listening set; nothing,
    /// with nothing changed, where the configuration names no port, which
    /// leaves the service without a beacon, and where the registry is used
    /// up.
    pub fn start_service_discovery(&mut self) -> (token: Option<Token>)
        requires
            old(self).wf(),
        ensures
            final(self).wf(),
            old(self).same_settings(final(self)),
            final(self).peers() == old(self).peers(),
            match token {
                Some(t) => {
                    &&& old(self).config().service_discovery_port matches Some(port)
                    &&& t.0 == old(self).reactor().next_token()
                    &&& final(self).reactor().next_token() == old(self).reactor().next_token() + 1
                    &&& final(self).reactor().next_context() == old(self).reactor().next_context()
                        + 1
                    &&& final(self).reactor().contexts() == old(self).reactor().contexts().insert(
                        t,
                        Context(old(self).reactor().next_context() as usize),
                    )
                    &&& final(self).discovery_at(t) matches Some(discovery)
                    &&& discovery@ == ServiceDiscoveryView::initial(t, port, discovery@.guid)
                    &&& forall|o: Token|
                        o != t ==> #[trigger] final(self).reactor().owner(o)
                            == old(self).reactor().owner(o)
                },
                None => {
                    &&& old(self).config().service_discovery_port is None
                        || old(self).reactor().next_token() == usize::MAX
                        || old(self).reactor().next_context()
                        == usize::MAX
                    &&& final(self).reactor() == old(self).reactor()
                },
            },
    {
        let port = match self.config.service_discovery_port {
            Some(p) => p,
            None => {
                return None;
            },
        };
        if self.core.next_context_is_last() || self.core.next_token_is_last() {
            return None;
        }
        let context = match self.core.get_new_context() {
            Some(c) => c,
            None => {
                return None;
            },
        };
        let token = ServiceDiscovery::start(&mut self.core, context, port);
        token
    }

    /// Takes the discovery instance under `token` out of the registry, to be
    /// put back by `put_discovery`.
    fn take_discovery(&mut self, token: Token) -> (taken: Option<(Context, ServiceDiscovery)>)
        requires
            old(self).wf(),
        ensures
            old(self).same_settings(final(self)),
            final(self).peers() == old(self).peers(),
            final(self).reactor().contexts() == old(self).reactor().contexts(),
            final(self).reactor().next_token() == old(self).reactor().next_token(),
            final(self).reactor().next_context() == old(self).reactor().next_context(),
            match taken {
                Some((context, discovery)) => {
                    &&& old(self).reactor().contexts().contains_key(token)
                    &&& old(self).reactor().contexts()[token] == context
                    &&& old(self).discovery_at(token) == Some(discovery)
                    &&& final(self).wf()
                    &&& final(self).reactor().states() == old(self).reactor().states().remove(
                        context,
                    )
                },
                None => {
                    &&& old(self).discovery_at(token) is None
                    &&& final(self).reactor() == old(self).reactor()
                },
            },
    {
        let context = match self.core.get_context(token) {
            Some(c) => c,
            None => {
                return None;
            },
        };
        match self.core.get_state(context) {
            Some(State::ServiceDiscovery(_)) => {},
            _ => {
                return None;
            },
        }
        match self.core.remove_state(context) {
            Some(State::ServiceDiscovery(discovery)) => {
                Some((context, discovery))
            },
            _ => None,
        }
    }

    /// Puts back the discovery instance that `take_discovery` took from
    /// under `token`.
    fn put_discovery(
        &mut self,
        token: Token,
        context: Context,
        discovery: ServiceDiscovery,
        Ghost(before): Ghost<Service>,
    )
        requires
            before.wf(),
            old(self).wf(),
            before.reactor().contexts().contains_key(token),
            before.reactor().contexts()[token] == context,
            before.discovery_at(token) is Some,
            old(self).peers() == before.peers(),
            old(self).reactor().contexts() == before.reactor().contexts(),
            old(self).reactor().next_token() == before.reactor().next_token(),
            old(self).reactor().next_context() == before.reactor().next_context(),
            old(self).reactor().states() == before.reactor().states().remove(context),
        ensures
            final(self).wf(),
            old(self).same_settings(final(self)),
            final(self).peers() == before.peers(),
            final(self).reactor().contexts() == before.reactor().contexts(),
            final(self).reactor().next_token() == before.reactor().next_token(),
            final(self).reactor().next_context() == before.reactor().next_context(),
            final(self).reactor().states() == before.reactor().states().insert(
                context,
                State::ServiceDiscovery(discovery),
            ),
            final(self).discovery_at(token) == Some(discovery),
            forall|t: Token| #[trigger] final(self).peer_at(t) == before.peer_at(t),
    {
        let _ = self.core.insert_state(context, State::ServiceDiscovery(discovery));
    }

    /// Turns on or off that the beacon under `token` answers the requests
    /// of other nodes. Tells whether the token belongs to a beacon.
    pub fn set_service_discovery_listen(&mut self, token: Token, listen: bool) -> (found: bool)
        requires
            old(self).wf(),
        ensures
            final(self).wf(),
            old(self).same_settings(final(self)),
            final(self).peers() == old(self).peers(),
            final(self).reactor().contexts() == old(self).reactor().contexts(),
            final(self).reactor().next_token() == old(self).reactor().next_token(),
            final(self).reactor().next_context() == old(self).reactor().next_context(),
            forall|t: Token| #[trigger] final(self).peer_at(t) == old(self).peer_at(t),
            found == old(self).discovery_at(token) is Some,
            match old(self).discovery_at(token) {
                Some(discovery) => {
                    &&& final(self).discovery_at(token) matches Some(d)
                    &&& d@ == (ServiceDiscoveryView { listen, ..discovery@ })
                    &&& old(self).same_states_but(
                        final(self),
                        old(self).reactor().contexts()[token],
                    )
                },
                None => final(self).reactor() == old(self).reactor(),
            },
    {
        let ghost before = *self;
        match self.take_discovery(token) {
            None => false,
            Some((context, discovery)) => {
                let mut discovery = discovery;
                discovery.set_listen(listen);
                self.put_discovery(token, context, discovery, Ghost(before));
                true
            },
        }
    }

    /// Adds `obs` to the observers of the beacon under `token`. Tells
    /// whether the token belongs to a beacon; where it does not, the observer
    /// is dropped.
    pub fn register_observer(&mut self, token: Token, obs: Sender<Vec<SocketAddr>>) -> (found: bool)
        requires
            old(self).wf(),
        ensures
            final(self).wf(),
            old(self).same_settings(final(self)),
            final(self).peers() == old(self).peers(),
            final(self).reactor().contexts() == old(self).reactor().contexts(),
            final(self).reactor().next_token() == old(self).reactor().next_token(),
            final(self).reactor().next_context() == old(self).reactor().next_context(),
            forall|t: Token| #[trigger] final(self).peer_at(t) == old(self).peer_at(t),
            found == old(self).discovery_at(token) is Some,
            match old(self).discovery_at(token) {
                Some(discovery) => {
                    &&& old(self).same_states_but(
                        final(self),
                        old(self).reactor().contexts()[token],
                    )
                    &&& final(self).discovery_at(token) matches Some(d)
                    &&& d@ == (ServiceDiscoveryView {
                        observers: discovery@.observers.push(obs),
                        ..discovery@
                    })
                },
                None => final(self).reactor() == old(self).reactor(),
            },
    {
        let ghost before = *self;
        match self.take_discovery(token) {
            None => false,
            Some((context, discovery)) => {
                let mut discovery = discovery;
                discovery.register_observer(obs);
                self.put_discovery(token, context, discovery, Ghost(before));
                true
            },
        }
    }

    /// The datagram by which the beacon under `token` asks the network for
    /// peers, and where to send it. Nothing changes, so asking twice asks
    /// the same.
    pub fn seek_peers(&self, token: Token) -> (datagram: Option<(SocketAddr, DiscoveryMsg)>)
        ensures
            match self.discovery_at(token) {
                Some(discovery) => {
                    &&& datagram matches Some((to, msg))
                    &&& to == discovery@.remote_addr
                    &&& msg@ == (DiscoveryMsgView::Request { guid: discovery@.guid })
                },
                None => datagram is None,
            },
    {
        let context = match self.core.get_context(token) {
            Some(c) => c,
            None => {
                return None;
            },
        };
        match self.core.get_state(context) {
            Some(State::ServiceDiscovery(discovery)) => Some(discovery.seek_peers()),
            _ => None,
        }
    }

    /// The node that the beacon under `token` answers next, if one waits.
    pub fn pending_reply(&self, token: Token) -> (peer: Option<SocketAddr>)
        ensures
            peer == (match self.discovery_at(token) {
                Some(discovery) if discovery@.reply_to.len() > 0 => Some(discovery@.reply_to[0]),
                _ => None,
            }),
    {
        let context = match self.core.get_context(token) {
            Some(c) => c,
            None => {
                return None;
            },
        };
        match self.core.get_state(context) {
            Some(State::ServiceDiscovery(discovery)) => discovery.pending_reply(),
            _ => None,
        }
    }

    /// Sorts out a readiness report for the beacon under `token`, as
    /// `ServiceDiscovery::ready` does. A report that ends the beacon takes
    /// it out of the registry.
    pub fn discovery_ready(&mut self, token: Token, event_set: EventSet) -> (action: Option<
        ReadyAction,
    >)
        requires
            old(self).wf(),
        ensures
            final(self).wf(),
            old(self).same_settings(final(self)),
            final(self).peers() == old(self).peers(),
            final(self).reactor().next_token() == old(self).reactor().next_token(),
            final(self).reactor().next_context() == old(self).reactor().next_context(),
            forall|t: Token| #[trigger] final(self).peer_at(t) == old(self).peer_at(t),
            match old(self).discovery_at(token) {
                None => action is None && final(self).reactor() == old(self).reactor(),
                Some(_) => if event_set.error || event_set.hup {
                    &&& action == Some(ReadyAction::Terminate)
                    &&& final(self).reactor().contexts() == old(self).reactor().contexts().remove(
                        token,
                    )
                    &&& final(self).reactor().states() == old(self).reactor().states().remove(
                        old(self).reactor().contexts()[token],
                    )
                } else {
                    &&& action == Some(
                        ReadyAction::Proceed {
                            read: event_set.readable,
                            write: event_set.writable,
                        },
                    )
                    &&& final(self).reactor() == old(self).reactor()
                },
            },
    {
        let context = match self.core.get_context(token) {
            Some(c) => c,
            None => {
                return None;
            },
        };
        let action = match self.core.get_state(context) {
            Some(State::ServiceDiscovery(discovery)) => discovery.ready(event_set),
            _ => {
                return None;
            },
        };
        match action {
            ReadyAction::Terminate => {
                let _ = self.state_ended(token);
            },
            _ => {},
        }
        Some(action)
    }

    /// Lets the beacon under `token` react to what a read of its socket
    /// gave, as `ServiceDiscovery::read` does. A read that ends the beacon
    /// takes it out of the registry.
    pub fn discovery_read(&mut self, token: Token, event: ReadEvent) -> (action: Option<ReadAction>)
        requires
            old(self).wf(),
        ensures
            final(self).wf(),
            old(self).same_settings(final(self)),
            final(self).peers() == old(self).peers(),
            final(self).reactor().next_token() == old(self).reactor().next_token(),
            final(self).reactor().next_context() == old(self).reactor().next_context(),
            forall|t: Token| #[trigger] final(self).peer_at(t) == old(self).peer_at(t),
            match old(self).discovery_at(token) {
                None => action is None && final(self).reactor() == old(self).reactor(),
                Some(discovery) => match event {
                    ReadEvent::Failed => {
                        &&& action == Some(ReadAction::Terminate)
                        &&& final(self).reactor().contexts()
                            == old(self).reactor().contexts().remove(token)
                        &&& final(self).reactor().states() == old(self).reactor().states().remove(
                            old(self).reactor().contexts()[token],
                        )
                    },
                    ReadEvent::Message { from, msg: DiscoveryMsg::Response(listeners) } => {
                        &&& action == Some(ReadAction::Idle)
                        &&& final(self).reactor().contexts() == old(self).reactor().contexts()
                        &&& old(self).same_states_but(
                            final(self),
                            old(self).reactor().contexts()[token],
                        )
                        &&& final(self).discovery_at(token) matches Some(d)
                        &&& exists|accepted: Seq<bool>|
                            {
                                &&& accepted.len() == discovery@.observers.len()
                                &&& d@ == (ServiceDiscoveryView {
                                    observers: #[trigger] retained(
                                        discovery@.observers,
                                        accepted,
                                    ),
                                    ..discovery@
                                })
                            }
                    },
                    _ => {
                        &&& action == Some(
                            if discovery@.after_read(event) != discovery@ {
                                ReadAction::Reply
                            } else {
                                ReadAction::Idle
                            },
                        )
                        &&& final(self).reactor().contexts() == old(self).reactor().contexts()
                        &&& old(self).same_states_but(
                            final(self),
                            old(self).reactor().contexts()[token],
                        )
                        &&& final(self).discovery_at(token) matches Some(d)
                        &&& d@ == discovery@.after_read(event)
                    },
                },
            },
    {
        let ghost before = *self;
        match self.take_discovery(token) {
            None => None,
            Some((context, discovery)) => {
                let mut discovery = discovery;
                let ghost was = discovery@;
                let action = discovery.read(event);
                proof {
                    if was.after_read(event) != was {
                        assert(was.after_read(event).reply_to.len() == was.reply_to.len() + 1);
                    }
                }
                self.put_discovery(token, context, discovery, Ghost(before));
                match action {
                    ReadAction::Terminate => {
                        let _ = self.state_ended(token);
                    },
                    _ => {},
                }
                Some(action)
            },
        }
    }

    /// Lets the beacon under `token` account for a write turn, as
    /// `ServiceDiscovery::write` does. A turn that ends the beacon takes it
    /// out of the registry.
    pub fn discovery_write(&mut self, token: Token, outcome: SendOutcome) -> (action: Option<
        WriteAction,
    >)
        requires
            old(self).wf(),
        ensures
            final(self).wf(),
            old(self).same_settings(final(self)),
            final(self).peers() == old(self).peers(),
            final(self).reactor().next_token() == old(self).reactor().next_token(),
            final(self).reactor().next_context() == old(self).reactor().next_context(),
            forall|t: Token| #[trigger] final(self).peer_at(t) == old(self).peer_at(t),
            match old(self).discovery_at(token) {
                None => action is None && final(self).reactor() == old(self).reactor(),
                Some(discovery) => {
                    let ends = outcome == SendOutcome::Unencodable || (outcome
                        == SendOutcome::Failed && discovery@.reply_to.len() > 0);
                    if ends {
                        &&& action == Some(WriteAction::Terminate)
                        &&& final(self).reactor().contexts()
                            == old(self).reactor().contexts().remove(
                            token,
                        )
                        &&& final(self).reactor().states() == old(self).reactor().states().remove(
                            old(self).reactor().contexts()[token],
                        )
                    } else {
                        &&& action == Some(
                            WriteAction::Reregister(discovery@.after_write(outcome).interest()),
                        )
                        &&& final(self).reactor().contexts() == old(self).reactor().contexts()
                        &&& old(self).same_states_but(
                            final(self),
                            old(self).reactor().contexts()[token],
                        )
                        &&& final(self).discovery_at(token) matches Some(d)
                        &&& d@ == discovery@.after_write(outcome)
                    }
                },
            },
    {
        let ghost before = *self;
        match self.take_discovery(token) {
            None => None,
            Some((context, discovery)) => {
                let mut discovery = discovery;
                let action = discovery.write(outcome);
                self.put_discovery(token, context, discovery, Ghost(before));
                match action {
                    WriteAction::Terminate => {
                        let _ = self.state_ended(token);
                    },
                    _ => {},
                }
                Some(action)
            },
        }
    }
}

} // verus!
