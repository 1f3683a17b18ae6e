//! Connections that come in: the listener, and the handshake that makes a
//! peer of an accepted connection.

use vstd::prelude::*;
use crate::common::{Context, State, Token};
use crate::event::{Event, EventView};
use crate::net::addr::SocketAddr;
use crate::net::peer::{spec_validate, validate, BootstrapAcceptError, Handshake};
use crate::service::peers::Promotion;
use crate::service::Service;

verus! {

impl Service {
    /// The port the listener is to be bound to; `None` where the
    /// configuration names none, which leaves the service without a
    /// listener.
    pub fn listener_port(&self) -> (port: Option<u16>)
        ensures
            port == self.config().tcp_acceptor_port,
    {
        self.config.tcp_acceptor_port
    }

    /// Notes how binding the listener went: `bound` holds the port it
    /// accepts connections on, or nothing when it could not be bound. Gives
    /// the token to register the acceptor under, where it is up, and the
    /// event to publish. A listener that cannot be registered counts as
    /// failed.
    pub fn listener_bound(&mut self, bound: Option<u16>) -> (result: (Option<Token>, Event))
        requires
            old(self).wf(),
        ensures
            final(self).wf(),
            old(self).same_settings(final(self)),
            final(self).peers() == old(self).peers(),
            match result.0 {
                Some(token) => {
                    &&& bound matches Some(port)
                    &&& result.1@ == EventView::ListenerStarted(port)
                    &&& token.0 == old(self).reactor().next_token()
                    &&& final(self).reactor().next_token() == old(self).reactor().next_token() + 1
                    &&& final(self).reactor().next_context() == old(self).reactor().next_context()
                        + 1
                    &&& final(self).reactor().contexts() == old(self).reactor().contexts().insert(
                        token,
                        Context(old(self).reactor().next_context() as usize),
                    )
                    &&& final(self).reactor().states() == old(self).reactor().states().insert(
                        Context(old(self).reactor().next_context() as usize),
                        State::Listener(port),
                    )
                },
                None => {
                    &&& result.1@ == EventView::ListenerFailed
                    &&& bound is None || old(self).reactor().next_token() == usize::MAX
                        || old(self).reactor().next_context() == usize::MAX
                    &&& final(self).reactor() == old(self).reactor()
                },
            },
    {
        match bound {
            None => (None, Event::ListenerFailed),
            Some(port) => match self.register(State::Listener(port)) {
                Some((token, _)) => (Some(token), Event::ListenerStarted(port)),
                None => (None, Event::ListenerFailed),
            },
        }
    }

    /// Notes a connection that the listener accepted from `remote`. Gives
    /// the token to register its socket under until it has shaken hands;
    /// nothing, when nodes may not bootstrap off this one or the reactor is
    /// used up, on which the connection is to be closed.
    pub fn accepted(&mut self, remote: SocketAddr) -> (token: Option<Token>)
        requires
            old(self).wf(),
        ensures
            final(self).wf(),
            old(self).same_settings(final(self)),
            final(self).peers() == old(self).peers(),
            match token {
                Some(t) => {
                    &&& old(self).accepts_bootstrap()
                    &&& t.0 == old(self).reactor().next_token()
                    &&& final(self).reactor().next_token() == old(self).reactor().next_token() + 1
                    &&& final(self).reactor().next_context() == old(self).reactor().next_context()
                        + 1
                    &&& final(self).reactor().contexts() == old(self).reactor().contexts().insert(
                        t,
                        Context(old(self).reactor().next_context() as usize),
                    )
                    &&& final(self).reactor().states() == old(self).reactor().states().insert(
                        Context(old(self).reactor().next_context() as usize),
                        State::BootstrapAcceptor(remote),
                    )
                },
                None => {
                    &&& !old(self).accepts_bootstrap() || old(self).reactor().next_token()
                        == usize::MAX || old(self).reactor().next_context() == usize::MAX
                    &&& final(self).reactor() == old(self).reactor()
                },
            },
    {
        if !self.accept_bootstrap {
            return None;
        }
        match self.register(State::BootstrapAcceptor(remote)) {
            Some((token, _)) => Some(token),
            None => None,
        }
    }

    /// Deals with the handshake that came in on the accepted connection
    /// under `token`.
    ///
    /// The handshake is checked against the configuration. One that fails
    /// ends the connection: its token leaves the reactor and the socket is
    /// to be closed. One that passes makes the connection a peer, as
    /// `promote` does, and where that connects the peer, the event tells of
    /// the node that bootstrapped off this one. A token that belongs to no
    /// accepted connection changes nothing.
    pub fn handshake(&mut self, token: Token, handshake: &Handshake) -> (result: (
        Result<Promotion, BootstrapAcceptError>,
        Option<Event>,
    ))
        requires
            old(self).wf(),
        ensures
            final(self).wf(),
            old(self).same_settings(final(self)),
            final(self).reactor().next_token() == old(self).reactor().next_token(),
            final(self).reactor().next_context() == (if result.0 matches Ok(
                Promotion::Connected { .. },
            ) {
                old(self).reactor().next_context() + 1
            } else {
                old(self).reactor().next_context()
            }),
            match old(self).reactor().owner(token) {
                Some(State::BootstrapAcceptor(remote)) => {
                    match spec_validate(
                        old(self).config(),
                        old(self).our_uid(),
                        *handshake,
                        remote.ip,
                    ) {
                        Err(e) => {
                            &&& result.0 == Err::<Promotion, BootstrapAcceptError>(e)
                            &&& result.1 is None
                            &&& final(self).peers() == old(self).peers()
                            &&& final(self).reactor().contexts()
                                == old(self).reactor().contexts().remove(token)
                            &&& final(self).reactor().states()
                                == old(self).reactor().states().remove(
                                old(self).reactor().contexts()[token],
                            )
                        },
                        Ok(()) => {
                            &&& result.0 matches Ok(promotion)
                            &&& promotion == old(self).promotion(
                                token,
                                handshake.uid,
                                handshake.nonce,
                            )
                            &&& old(self).promoted(
                                final(self),
                                token,
                                handshake.uid,
                                handshake.kind,
                                handshake.nonce,
                            )
                            &&& result.1 matches Some(e) ==> e@ == EventView::BootstrapAccept(
                                handshake.uid,
                                handshake.kind,
                            )
                            &&& result.1 is Some == promotion is Connected
                        },
                    }
                },
                _ => {
                    &&& result.0 == Ok::<Promotion, BootstrapAcceptError>(Promotion::UnknownToken)
                    &&& result.1 is None
                    &&& final(self).peers() == old(self).peers()
                    &&& final(self).reactor() == old(self).reactor()
                },
            },
    {
        let context = match self.core.get_context(token) {
            Some(c) => c,
            None => {
                return (Ok(Promotion::UnknownToken), None);
            },
        };
        let remote = match self.core.get_state(context) {
            Some(State::BootstrapAcceptor(remote)) => *remote,
            _ => {
                return (Ok(Promotion::UnknownToken), None);
            },
        };
        match validate(&self.config, self.our_uid, handshake, remote.ip) {
            Err(e) => {
                let _ = self.core.terminate(token);
                (Err(e), None)
            },
            Ok(()) => {
                let promotion = self.promote(token, handshake.uid, handshake.kind, handshake.nonce);
                match promotion {
                    Promotion::Connected { .. } => (
                        Ok(promotion),
                        Some(Event::BootstrapAccept(handshake.uid, handshake.kind)),
                    ),
                    _ => (Ok(promotion), None),
                }
            },
        }
    }
}

} // verus!
