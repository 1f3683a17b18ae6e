//! Connected peers: how a socket becomes one, what it sends and reads, and
//! how it ends.

use vstd::prelude::*;
use crate::common::{Context, EventSet, ReadyAction, State, Token};
use crate::event::{events_view, Event, EventView};
use crate::net::peer::{spec_survivor, survivor, Handshaken, Peer, PeerKind, PeerView, Uid};
use crate::net::socket::{spec_drain, Priority, Socket, SocketView, MAX_PAYLOAD_SIZE};
use crate::service::Service;

verus! {

/// How the promotion of a socket to a peer ended.
#[derive(Clone, Copy, Debug, PartialEq, Eq, Structural)]
pub enum Promotion {
    /// The token is not registered, or belongs to a peer already: nothing
    /// changed.
    UnknownToken,
    /// The reactor has no context left: nothing changed.
    Exhausted,
    /// A peer with that identifier is connected over a socket that stays.
    /// The token was dropped from the reactor; its socket is to be closed
    /// with the marker of a duplicate connection.
    Duplicate,
    /// The socket is a peer now. Where it took the place of the socket
    /// `replaced` to the same node, that token was dropped from the reactor
    /// and its socket is to be closed with the marker of a duplicate
    /// connection.
    Connected { replaced: Option<Token> },
}

/// How a message for a peer was dealt with.
#[derive(Debug, PartialEq, Eq)]
pub enum Sent {
    /// No peer with that identifier is connected.
    NoSuchPeer,
    /// The message is too large to send. It is handed back in the event,
    /// which is to be published; the peer stays up.
    Refused(Event),
    /// The peer's queue is over its high-water mark, and the message is
    /// below system priority.
    WouldBlock,
    /// The message is queued on the socket registered under `token`. Where
    /// `reregister` is set, the socket had nothing to send before and is to
    /// be registered anew for that set.
    Queued { token: Token, reregister: Option<EventSet> },
}

/// The events that the bytes of a peer give: a new message for each whole
/// frame, in the order of the frames, and at the end the loss of the peer
/// where it announced a payload that is too large.
pub open spec fn read_events(uid: Uid, incoming: Seq<u8>) -> Seq<EventView> {
    let drained = spec_drain(incoming);
    drained.messages.map_values(|m: Seq<u8>| EventView::NewMessage(uid, m)) + (
    if drained.too_large {
        seq![EventView::LostPeer(uid)]
    } else {
        Seq::empty()
    })
}

impl Service {
    /// Whether a new socket to the node `uid` with `nonce` stays: it does
    /// when no peer with that identifier is connected, and when its nonce is
    /// lower than that of the peer's socket.
    pub open spec fn new_socket_stays(&self, uid: Uid, token: Token, nonce: u64) -> bool {
        !self.peers().contains_key(uid) || spec_survivor(
            Handshaken {
                token: self.peers()[uid],
                nonce: self.peer_at(self.peers()[uid])->Some_0@.nonce,
            },
            Handshaken { token, nonce },
        ).token == token
    }

    /// How the promotion of the socket under `token` to a peer with the
    /// identifier `uid` ends.
    pub open spec fn promotion(&self, token: Token, uid: Uid, nonce: u64) -> Promotion {
        if !self.reactor().contexts().contains_key(token) || self.peer_at(token) is Some {
            Promotion::UnknownToken
        } else if !self.new_socket_stays(uid, token, nonce) {
            Promotion::Duplicate
        } else if self.reactor().next_context() == usize::MAX {
            Promotion::Exhausted
        } else {
            Promotion::Connected {
                replaced: if self.peers().contains_key(uid) {
                    Some(self.peers()[uid])
                } else {
                    None
                },
            }
        }
    }

    /// How the service `post` follows from this one when the socket under
    /// `token` is promoted to a peer with the identifier `uid`.
    ///
    /// A promotion that does not come about changes nothing. A socket that
    /// is turned down for the one a peer has already leaves the registry
    /// with the state that owned it. A socket that becomes a peer is
    /// registered under a new context with a fresh framed socket, the state
    /// that owned it leaves the registry, and so does the socket it takes
    /// the place of; every other state stays as it is.
    pub open spec fn promoted(
        &self,
        post: &Service,
        token: Token,
        uid: Uid,
        kind: PeerKind,
        nonce: u64,
    ) -> bool {
        match self.promotion(token, uid, nonce) {
            Promotion::UnknownToken | Promotion::Exhausted => {
                &&& post.peers() == self.peers()
                &&& post.reactor() == self.reactor()
            },
            Promotion::Duplicate => {
                &&& post.peers() == self.peers()
                &&& post.reactor().contexts() =~= self.reactor().contexts().remove(token)
                &&& post.reactor().states() =~= self.reactor().states().remove(
                    self.reactor().contexts()[token],
                )
            },
            Promotion::Connected { replaced } => {
                let context = post.reactor().contexts()[token];
                let kept_tokens = match replaced {
                    Some(t) => self.reactor().contexts().remove(t),
                    None => self.reactor().contexts(),
                };
                let kept_states = match replaced {
                    Some(t) => self.reactor().states().remove(
                        self.reactor().contexts()[token],
                    ).remove(self.reactor().contexts()[t]),
                    None => self.reactor().states().remove(self.reactor().contexts()[token]),
                };
                &&& post.peers() =~= self.peers().insert(uid, token)
                &&& context.0 == self.reactor().next_context()
                &&& post.reactor().contexts() =~= kept_tokens.insert(token, context)
                &&& post.reactor().states().dom() =~= kept_states.dom().insert(context)
                &&& forall|c: Context|
                    c != context && kept_states.contains_key(c)
                        ==> #[trigger] post.reactor().states()[c] == self.reactor().states()[c]
                &&& post.peer_at(token) matches Some(p)
                &&& p@ == (PeerView {
                    token,
                    uid,
                    kind,
                    nonce,
                    socket: SocketView::fresh(self.high_water()),
                })
                &&& forall|other: Uid|
                    other != uid && self.peers().contains_key(other)
                        ==> #[trigger] post.peer_at(self.peers()[other])
                        == self.peer_at(self.peers()[other])
            },
        }
    }

    /// Makes a peer of the socket registered under `token`, on which the
    /// handshake with the node `uid` has completed with `nonce`.
    ///
    /// The state that owned the token until now ends. Where a peer with the
    /// same identifier is connected already, only one of the two sockets
    /// stays: the one with the lower nonce, and the old one when the nonces
    /// are equal.
    pub fn promote(&mut self, token: Token, uid: Uid, kind: PeerKind, nonce: u64) -> (result:
        Promotion)
        requires
            old(self).wf(),
        ensures
            final(self).wf(),
            old(self).same_settings(final(self)),
            final(self).reactor().next_token() == old(self).reactor().next_token(),
            final(self).reactor().next_context() == (if result is Connected {
                old(self).reactor().next_context() + 1
            } else {
                old(self).reactor().next_context()
            }),
            result == old(self).promotion(token, uid, nonce),
            old(self).promoted(final(self), token, uid, kind, nonce),
    {
        let old_context = match self.core.get_context(token) {
            Some(c) => c,
            None => {
                return Promotion::UnknownToken;
            },
        };
        match self.core.get_state(old_context) {
            Some(State::Peer(_)) => {
                return Promotion::UnknownToken;
            },
            _ => {},
        }
        let existing: Option<Token> = match self.peers.get(&uid.0) {
            Some(t) => Some(*t),
            None => None,
        };
        let mut replaced: Option<Token> = None;
        match existing {
            None => {},
            Some(t) => {
                let their_context = match self.core.get_context(t) {
                    Some(c) => c,
                    None => {
                        return Promotion::UnknownToken;
                    },
                };
                let their_nonce = match self.core.get_state(their_context) {
                    Some(State::Peer(p)) => p.nonce(),
                    _ => {
                        return Promotion::UnknownToken;
                    },
                };
                let kept = survivor(
                    Handshaken { token: t, nonce: their_nonce },
                    Handshaken { token, nonce },
                );
                if kept.token == t {
                    let _ = self.core.terminate(token);
                    return Promotion::Duplicate;
                }
                replaced = Some(t);
            },
        }
        if self.core.next_context_is_last() {
            return Promotion::Exhausted;
        }
        match replaced {
            Some(t) => {
                let _ = self.core.terminate(t);
                let _ = self.peers.remove(&uid.0);
            },
            None => {},
        }
        let _ = self.core.terminate(token);
        let context = match self.core.get_new_context() {
            Some(c) => c,
            None => {
                return Promotion::Exhausted;
            },
        };
        let peer = Peer::new(token, uid, kind, nonce, Socket::new(self.high_water));
        let _ = self.core.insert_context(token, context);
        let _ = self.core.insert_state(context, State::Peer(peer));
        let _ = self.peers.insert(uid.0, token);
        proof {
            assert(self.peers() =~= old(self).peers().insert(uid, token));
        }
        Promotion::Connected { replaced }
    }

    /// Takes the peer under `token` out of the registry, to be put back by
    /// `put_peer`.
    fn take_peer(&mut self, token: Token) -> (taken: Option<(Context, Peer)>)
        requires
            old(self).wf(),
        ensures
            old(self).same_settings(final(self)),
            final(self).peers() == old(self).peers(),
            final(self).reactor().wf(),
            final(self).reactor().contexts() == old(self).reactor().contexts(),
            final(self).reactor().next_token() == old(self).reactor().next_token(),
            final(self).reactor().next_context() == old(self).reactor().next_context(),
            match taken {
                Some((context, peer)) => {
                    &&& old(self).reactor().contexts().contains_key(token)
                    &&& old(self).reactor().contexts()[token] == context
                    &&& old(self).peer_at(token) == Some(peer)
                    &&& peer.wf()
                    &&& peer@.token == token
                    &&& old(self).peers().contains_key(peer@.uid)
                    &&& old(self).peers()[peer@.uid] == token
                    &&& final(self).reactor().states() == old(self).reactor().states().remove(
                        context,
                    )
                },
                None => {
                    &&& old(self).peer_at(token) is None
                    &&& final(self).reactor() == old(self).reactor()
                },
            },
    {
        let context = match self.core.get_context(token) {
            Some(c) => c,
            None => {
                return None;
            },
        };
        match self.core.get_state(context) {
            Some(State::Peer(_)) => {},
            _ => {
                return None;
            },
        }
        match self.core.remove_state(context) {
            Some(State::Peer(peer)) => Some((context, peer)),
            _ => None,
        }
    }

    /// Puts back the peer that `take_peer` took from under `token`, after
    /// its socket changed.
    fn put_peer(&mut self, token: Token, context: Context, peer: Peer, Ghost(before): Ghost<
        Service,
    >)
        requires
            before.wf(),
            before.reactor().contexts().contains_key(token),
            before.reactor().contexts()[token] == context,
            before.peer_at(token) matches Some(p) && p@.token == peer@.token && p@.uid
                == peer@.uid,
            peer.wf(),
            old(self).reactor().wf(),
            old(self).peers() == before.peers(),
            old(self).reactor().contexts() == before.reactor().contexts(),
            old(self).reactor().next_token() == before.reactor().next_token(),
            old(self).reactor().next_context() == before.reactor().next_context(),
            old(self).reactor().states() == before.reactor().states().remove(context),
        ensures
            final(self).wf(),
            old(self).same_settings(final(self)),
            final(self).peers() == before.peers(),
            final(self).reactor().contexts() == before.reactor().contexts(),
            final(self).reactor().next_token() == before.reactor().next_token(),
            final(self).reactor().next_context() == before.reactor().next_context(),
            final(self).reactor().states() == before.reactor().states().insert(
                context,
                State::Peer(peer),
            ),
            final(self).peer_at(token) == Some(peer),
            forall|t: Token|
                t != token ==> #[trigger] final(self).peer_at(t) == before.peer_at(t),
    {
        let _ = self.core.insert_state(context, State::Peer(peer));
    }

    /// Queues `msg` for the peer `uid` with `priority`.
    pub fn send(&mut self, uid: Uid, msg: Vec<u8>, priority: Priority) -> (sent: Sent)
        requires
            old(self).wf(),
        ensures
            final(self).wf(),
            old(self).same_settings(final(self)),
            final(self).peers() == old(self).peers(),
            final(self).reactor().contexts() == old(self).reactor().contexts(),
            final(self).reactor().next_token() == old(self).reactor().next_token(),
            final(self).reactor().next_context() == old(self).reactor().next_context(),
            !old(self).peers().contains_key(uid) ==> sent == Sent::NoSuchPeer
                && final(self).reactor() == old(self).reactor(),
            old(self).peers().contains_key(uid) ==> {
                let token = old(self).peers()[uid];
                let peer = old(self).peer_at(token)->Some_0;
                &&& old(self).same_states_but(
                    final(self),
                    old(self).reactor().contexts()[token],
                )
                &&& forall|t: Token|
                    t != token ==> #[trigger] final(self).peer_at(t) == old(self).peer_at(t)
                &&& final(self).peer_at(token) matches Some(p)
                &&& if msg@.len() > MAX_PAYLOAD_SIZE {
                    &&& sent matches Sent::Refused(event)
                    &&& event@ == EventView::WriteMsgSizeProhibitive(uid, msg@)
                    &&& p@ == peer@
                } else if peer@.socket.blocks(priority) {
                    &&& sent == Sent::WouldBlock
                    &&& p@ == peer@
                } else {
                    &&& sent == (Sent::Queued {
                        token,
                        reregister: if peer@.socket.idle() {
                            Some(EventSet::spec_interest(true))
                        } else {
                            None
                        },
                    })
                    &&& p@ == (PeerView {
                        socket: peer@.socket.enqueue(msg@, priority),
                        ..peer@
                    })
                }
            },
    {
        let token = match self.peers.get(&uid.0) {
            Some(t) => *t,
            None => {
                return Sent::NoSuchPeer;
            },
        };
        if msg.len() > MAX_PAYLOAD_SIZE {
            return Sent::Refused(Event::WriteMsgSizeProhibitive(uid, msg));
        }
        let ghost before = *self;
        match self.take_peer(token) {
            None => Sent::NoSuchPeer,
            Some((context, peer)) => {
                let mut peer = peer;
                let result = peer.send(msg, priority);
                self.put_peer(token, context, peer, Ghost(before));
                match result {
                    Ok(was_idle) => Sent::Queued {
                        token,
                        reregister: if was_idle {
                            Some(EventSet::interest(true))
                        } else {
                            None
                        },
                    },
                    Err(_) => Sent::WouldBlock,
                }
            },
        }
    }

    /// Ends the peer under `token`, whose socket was closed by the remote
    /// node or failed. Gives the event to publish, and nothing for a token
    /// that belongs to no peer.
    pub fn peer_lost(&mut self, token: Token) -> (event: Option<Event>)
        requires
            old(self).wf(),
        ensures
            final(self).wf(),
            old(self).same_settings(final(self)),
            final(self).reactor().next_token() == old(self).reactor().next_token(),
            final(self).reactor().next_context() == old(self).reactor().next_context(),
            match old(self).peer_at(token) {
                Some(peer) => {
                    &&& event matches Some(e)
                    &&& e@ == EventView::LostPeer(peer@.uid)
                    &&& final(self).peers() == old(self).peers().remove(peer@.uid)
                    &&& final(self).reactor().contexts() == old(self).reactor().contexts().remove(
                        token,
                    )
                    &&& final(self).reactor().states() == old(self).reactor().states().remove(
                        old(self).reactor().contexts()[token],
                    )
                },
                None => {
                    &&& event is None
                    &&& final(self).peers() == old(self).peers()
                    &&& final(self).reactor() == old(self).reactor()
                },
            },
    {
        let context = match self.core.get_context(token) {
            Some(c) => c,
            None => {
                return None;
            },
        };
        let uid = match self.core.get_state(context) {
            Some(State::Peer(peer)) => peer.uid(),
            _ => {
                return None;
            },
        };
        let _ = self.core.terminate(token);
        let _ = self.peers.remove(&uid.0);
        proof {
            assert(self.peers() =~= old(self).peers().remove(uid));
        }
        Some(Event::LostPeer(uid))
    }

    /// Drops the peer `uid`. Gives the token whose socket is to be closed
    /// and the event to publish, and nothing when no such peer is
    /// connected.
    pub fn disconnect(&mut self, uid: Uid) -> (dropped: Option<(Token, Event)>)
        requires
            old(self).wf(),
        ensures
            final(self).wf(),
            old(self).same_settings(final(self)),
            final(self).reactor().next_token() == old(self).reactor().next_token(),
            final(self).reactor().next_context() == old(self).reactor().next_context(),
            final(self).peers() == old(self).peers().remove(uid),
            if old(self).peers().contains_key(uid) {
                let token = old(self).peers()[uid];
                &&& dropped matches Some((t, e))
                &&& t == token
                &&& e@ == EventView::LostPeer(uid)
                &&& final(self).reactor().contexts() == old(self).reactor().contexts().remove(
                    token,
                )
                &&& final(self).reactor().states() == old(self).reactor().states().remove(
                    old(self).reactor().contexts()[token],
                )
            } else {
                &&& dropped is None
                &&& final(self).reactor() == old(self).reactor()
            },
    {
        let token = match self.peers.get(&uid.0) {
            Some(t) => *t,
            None => {
                return None;
            },
        };
        match self.peer_lost(token) {
            Some(event) => Some((token, event)),
            None => None,
        }
    }

    /// Sorts out a readiness report for the socket of the peer under
    /// `token`. An error or a hang-up ends the peer, which the event tells;
    /// otherwise the socket is read if readable and then, if the peer is
    /// still there, written if writable. A token that belongs to no peer gives
    /// nothing.
    pub fn peer_ready(&mut self, token: Token, event_set: EventSet) -> (result: (
        Option<ReadyAction>,
        Option<Event>,
    ))
        requires
            old(self).wf(),
        ensures
            final(self).wf(),
            old(self).same_settings(final(self)),
            final(self).reactor().next_token() == old(self).reactor().next_token(),
            final(self).reactor().next_context() == old(self).reactor().next_context(),
            match old(self).peer_at(token) {
                None => {
                    &&& result.0 is None
                    &&& result.1 is None
                    &&& final(self).peers() == old(self).peers()
                    &&& final(self).reactor() == old(self).reactor()
                },
                Some(peer) => if event_set.error || event_set.hup {
                    &&& result.0 == Some(ReadyAction::Terminate)
                    &&& result.1 matches Some(e)
                    &&& e@ == EventView::LostPeer(peer@.uid)
                    &&& final(self).peers() == old(self).peers().remove(peer@.uid)
                    &&& final(self).reactor().contexts() == old(self).reactor().contexts().remove(
                        token,
                    )
                    &&& final(self).reactor().states() == old(self).reactor().states().remove(
                        old(self).reactor().contexts()[token],
                    )
                } else {
                    &&& result.0 == Some(
                        ReadyAction::Proceed {
                            read: event_set.readable,
                            write: event_set.writable,
                        },
                    )
                    &&& result.1 is None
                    &&& final(self).peers() == old(self).peers()
                    &&& final(self).reactor() == old(self).reactor()
                },
            },
    {
        let context = match self.core.get_context(token) {
            Some(c) => c,
            None => {
                return (None, None);
            },
        };
        match self.core.get_state(context) {
            Some(State::Peer(_)) => {},
            _ => {
                return (None, None);
            },
        }
        if event_set.error || event_set.hup {
            let event = self.peer_lost(token);
            (Some(ReadyAction::Terminate), event)
        } else {
            (
                Some(
                    ReadyAction::Proceed { read: event_set.readable, write: event_set.writable },
                ),
                None,
            )
        }
    }

    /// Takes in `bytes` that the socket under `token` gave and gives the
    /// events to publish: a new message for each whole frame. A peer that
    /// announces a payload of more than `MAX_PAYLOAD_SIZE` bytes is ended,
    /// which the last event tells; its socket is then to be closed. A token
    /// that belongs to no peer gives nothing.
    pub fn peer_readable(&mut self, token: Token, bytes: &[u8]) -> (events: Vec<Event>)
        requires
            old(self).wf(),
        ensures
            final(self).wf(),
            old(self).same_settings(final(self)),
            final(self).reactor().next_token() == old(self).reactor().next_token(),
            final(self).reactor().next_context() == old(self).reactor().next_context(),
            match old(self).peer_at(token) {
                Some(peer) => {
                    let stream = peer@.socket.incoming + bytes@;
                    &&& events_view(events@) == read_events(peer@.uid, stream)
                    &&& if spec_drain(stream).too_large {
                        &&& final(self).peers() == old(self).peers().remove(peer@.uid)
                        &&& final(self).reactor().contexts()
                            == old(self).reactor().contexts().remove(token)
                        &&& final(self).reactor().states() == old(self).reactor().states().remove(
                            old(self).reactor().contexts()[token],
                        )
                    } else {
                        &&& final(self).peers() == old(self).peers()
                        &&& final(self).reactor().contexts() == old(self).reactor().contexts()
                        &&& old(self).same_states_but(
                            final(self),
                            old(self).reactor().contexts()[token],
                        )
                        &&& forall|t: Token|
                            t != token ==> #[trigger] final(self).peer_at(t) == old(self).peer_at(
                                t,
                            )
                        &&& final(self).peer_at(token) matches Some(p)
                        &&& p@ == (PeerView {
                            socket: SocketView {
                                incoming: spec_drain(stream).rest,
                                ..peer@.socket
                            },
                            ..peer@
                        })
                    }
                },
                None => {
                    &&& events@.len() == 0
                    &&& final(self).peers() == old(self).peers()
                    &&& final(self).reactor() == old(self).reactor()
                },
            },
    {
        let ghost before = *self;
        let mut events: Vec<Event> = Vec::new();
        match self.take_peer(token) {
            None => events,
            Some((context, peer)) => {
                let mut peer = peer;
                let uid = peer.uid();
                let ghost stream = peer@.socket.incoming + bytes@;
                let (messages, too_large) = peer.readable(bytes);
                self.put_peer(token, context, peer, Ghost(before));
                let mut messages = messages;
                let ghost all = messages@;
                // Move the messages out from the back, then put them in order.
                let mut stack: Vec<Event> = Vec::new();
                while messages.len() > 0
                    invariant
                        messages@ == all.take(messages.len() as int),
                        messages.len() <= all.len(),
                        stack.len() + messages.len() == all.len(),
                        forall|k: int|
                            0 <= k < stack.len() ==> (#[trigger] stack@[k])@
                                == EventView::NewMessage(uid, all[all.len() - 1 - k]@),
                    decreases messages.len(),
                {
                    match messages.pop() {
                        Some(m) => {
                            stack.push(Event::NewMessage(uid, m));
                        },
                        None => {},
                    }
                }
                while stack.len() > 0
                    invariant
                        stack.len() + events.len() == all.len(),
                        forall|k: int|
                            0 <= k < stack.len() ==> (#[trigger] stack@[k])@
                                == EventView::NewMessage(uid, all[all.len() - 1 - k]@),
                        forall|k: int|
                            0 <= k < events.len() ==> (#[trigger] events@[k])@
                                == EventView::NewMessage(uid, all[k]@),
                    decreases stack.len(),
                {
                    match stack.pop() {
                        Some(e) => {
                            events.push(e);
                        },
                        None => {},
                    }
                }
                if too_large {
                    match self.peer_lost(token) {
                        Some(e) => {
                            events.push(e);
                        },
                        None => {},
                    }
                }
                events
            },
        }
    }

    /// What the socket under `token` is to write now: the rest of the frame
    /// being sent, after the next frame was made ready where none was. A
    /// token that belongs to no peer gives nothing to write.
    pub fn peer_pending(&mut self, token: Token) -> (bytes: Vec<u8>)
        requires
            old(self).wf(),
        ensures
            final(self).wf(),
            old(self).same_settings(final(self)),
            final(self).peers() == old(self).peers(),
            final(self).reactor().contexts() == old(self).reactor().contexts(),
            final(self).reactor().next_token() == old(self).reactor().next_token(),
            final(self).reactor().next_context() == old(self).reactor().next_context(),
            forall|t: Token| t != token ==> #[trigger] final(self).peer_at(t)
                == old(self).peer_at(t),
            match old(self).peer_at(token) {
                Some(peer) => {
                    &&& bytes@ == peer@.socket.load().in_flight
                    &&& old(self).same_states_but(
                        final(self),
                        old(self).reactor().contexts()[token],
                    )
                    &&& final(self).peer_at(token) matches Some(p)
                    &&& p@ == (PeerView { socket: peer@.socket.load(), ..peer@ })
                },
                None => bytes@.len() == 0 && final(self).reactor() == old(self).reactor(),
            },
    {
        let ghost before = *self;
        match self.take_peer(token) {
            None => Vec::new(),
            Some((context, peer)) => {
                let mut peer = peer;
                peer.load();
                let bytes = peer.socket().pending().clone();
                self.put_peer(token, context, peer, Ghost(before));
                bytes
            },
        }
    }

    /// Accounts for `n` bytes that the socket under `token` wrote of what
    /// `peer_pending` gave. Where that was the last the peer had to send,
    /// gives the set to register the socket anew for.
    pub fn peer_wrote(&mut self, token: Token, n: usize) -> (reregister: Option<EventSet>)
        requires
            old(self).wf(),
        ensures
            final(self).wf(),
            old(self).same_settings(final(self)),
            final(self).peers() == old(self).peers(),
            final(self).reactor().contexts() == old(self).reactor().contexts(),
            final(self).reactor().next_token() == old(self).reactor().next_token(),
            final(self).reactor().next_context() == old(self).reactor().next_context(),
            forall|t: Token| t != token ==> #[trigger] final(self).peer_at(t)
                == old(self).peer_at(t),
            match old(self).peer_at(token) {
                Some(peer) => {
                    &&& old(self).same_states_but(
                        final(self),
                        old(self).reactor().contexts()[token],
                    )
                    &&& final(self).peer_at(token) matches Some(p)
                    &&& p@ == (PeerView { socket: peer@.socket.wrote(n as nat), ..peer@ })
                    &&& reregister == (if !peer@.socket.idle() && peer@.socket.wrote(
                        n as nat,
                    ).idle() {
                        Some(EventSet::spec_interest(false))
                    } else {
                        None
                    })
                },
                None => reregister is None && final(self).reactor() == old(self).reactor(),
            },
    {
        let ghost before = *self;
        match self.take_peer(token) {
            None => None,
            Some((context, peer)) => {
                let mut peer = peer;
                let drained = peer.wrote(n);
                self.put_peer(token, context, peer, Ghost(before));
                if drained {
                    Some(EventSet::interest(false))
                } else {
                    None
                }
            },
        }
    }
}

/// When a socket to a node that is connected already is promoted, exactly
/// one of the two sockets stays, and it is the one with the lower nonce: the
/// new socket is turned down unless its nonce is lower than that of the
/// peer's socket, and it takes that socket's place when it is.
pub proof fn lemma_lower_nonce_stays(service: &Service, token: Token, uid: Uid, nonce: u64)
    requires
        service.wf(),
        service.peers().contains_key(uid),
        service.reactor().contexts().contains_key(token),
        service.peer_at(token) is None,
    ensures
        service.peer_at(service.peers()[uid]) matches Some(existing) && (match service.promotion(
            token,
            uid,
            nonce,
        ) {
            Promotion::Duplicate => existing@.nonce <= nonce,
            Promotion::Connected { replaced } => replaced == Some(service.peers()[uid]) && nonce
                < existing@.nonce,
            Promotion::Exhausted => nonce < existing@.nonce,
            Promotion::UnknownToken => false,
        }),
{
}

} // verus!
