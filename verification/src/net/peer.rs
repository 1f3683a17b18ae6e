//! Handshakes and connected peers.

use vstd::prelude::*;
use crate::common::Token;
use crate::config::{passes, spec_passes, Config};
use crate::event::PubConnectionInfo;
use crate::net::addr::IpAddr;
use crate::net::socket::{payloads, spec_drain, Priority, Socket, SocketError, SocketView};

verus! {

/// The identifier of a node.
#[derive(Clone, Copy, Debug, PartialEq, Eq, Structural, Hash)]
pub struct Uid(pub u64);

/// What a remote node is to this one.
#[derive(Clone, Copy, Debug, PartialEq, Eq, Structural, Hash)]
pub enum PeerKind {
    /// A node this one bootstrapped off, or one that bootstraps off this
    /// one as a client.
    Bootstrap,
    /// A node of the network, connected directly.
    Node,
}

/// The nonce of the direct-connect handshake between two nodes: the
/// exclusive or of their identifiers.
pub open spec fn spec_connect_nonce(our_uid: Uid, their_uid: Uid) -> u64 {
    our_uid.0 ^ their_uid.0
}

/// The nonce this node sends to, and expects from, the node `their_uid` in
/// a direct-connect handshake.
#[verifier::when_used_as_spec(spec_connect_nonce)]
pub fn connect_nonce(our_uid: Uid, their_uid: Uid) -> (nonce: u64)
    ensures
        nonce == spec_connect_nonce(our_uid, their_uid),
{
    our_uid.0 ^ their_uid.0
}

/// Whether a socket stays after a direct-connect handshake over it
/// carried `nonce`: it does when the nonce is the one of the two nodes,
/// and is closed otherwise.
pub open spec fn spec_retains(our_uid: Uid, their_uid: Uid, nonce: u64) -> bool {
    nonce == spec_connect_nonce(our_uid, their_uid)
}

/// Whether this node keeps a socket over which the direct-connect
/// handshake with `their_uid` carried `nonce`.
#[verifier::when_used_as_spec(spec_retains)]
pub fn retains(our_uid: Uid, their_uid: Uid, nonce: u64) -> (keep: bool)
    ensures
        keep == spec_retains(our_uid, their_uid, nonce),
{
    nonce == connect_nonce(our_uid, their_uid)
}

/// Both nodes of a handshake compute the same nonce.
pub proof fn lemma_connect_nonce_is_shared(a: Uid, b: Uid)
    ensures
        spec_connect_nonce(a, b) == spec_connect_nonce(b, a),
{
    let x = a.0;
    let y = b.0;
    assert(x ^ y == y ^ x) by (bit_vector);
}

/// The two ends of a socket decide alike: after a handshake that carried
/// `nonce`, either both nodes keep the socket or both close it.
pub proof fn lemma_both_ends_decide_alike(a: Uid, b: Uid, nonce: u64)
    ensures
        spec_retains(a, b, nonce) == spec_retains(b, a, nonce),
{
    lemma_connect_nonce_is_shared(a, b);
}

/// A socket on which a handshake completed, and the nonce of that
/// handshake.
#[derive(Clone, Copy, Debug, PartialEq, Eq, Structural, Hash)]
pub struct Handshaken {
    pub token: Token,
    pub nonce: u64,
}

/// Of two sockets to the same node, the one that stays: the one with the
/// lower nonce, and the one that was there first when the nonces are equal.
pub open spec fn spec_survivor(existing: Handshaken, new: Handshaken) -> Handshaken {
    if new.nonce < existing.nonce {
        new
    } else {
        existing
    }
}

/// Breaks the tie between the socket a peer is connected over and a new one
/// to the same node: gives the one that stays. The other one is to be
/// closed.
#[verifier::when_used_as_spec(spec_survivor)]
pub fn survivor(existing: Handshaken, new: Handshaken) -> (kept: Handshaken)
    ensures
        kept == spec_survivor(existing, new),
{
    if new.nonce < existing.nonce {
        new
    } else {
        existing
    }
}

/// Of two sockets to the same node exactly one stays; no nonce of the two
/// is lower than its own; and where the nonces differ, the same socket
/// stays whichever of the two was there first.
pub proof fn lemma_one_survives(a: Handshaken, b: Handshaken)
    ensures
        spec_survivor(a, b) == a || spec_survivor(a, b) == b,
        spec_survivor(a, b).nonce <= a.nonce,
        spec_survivor(a, b).nonce <= b.nonce,
        a.nonce != b.nonce ==> spec_survivor(a, b) == spec_survivor(b, a),
{
}

/// What a node says of itself when it opens a connection.
pub struct Handshake {
    /// The name of the network the node belongs to.
    pub network_name: Option<String>,
    /// The node's identifier.
    pub uid: Uid,
    /// What the node wants to be to the other.
    pub kind: PeerKind,
    /// Where the node can be connected to directly.
    pub pub_info: PubConnectionInfo,
    /// A random number, by which ties between two connections are broken.
    pub nonce: u64,
}

/// Why an incoming handshake was turned down.
#[derive(Clone, Copy, Debug, PartialEq, Eq, Structural)]
pub enum BootstrapAcceptError {
    /// The remote node names another network.
    InvalidNetworkName,
    /// The remote node carries this node's own identifier.
    ConnectionFromOurself,
    /// The remote node's address is not on the whitelist for its kind.
    NotWhitelisted,
}

/// What a network name says.
pub open spec fn name_view(name: Option<String>) -> Option<Seq<char>> {
    match name {
        Some(n) => Some(n@),
        None => None,
    }
}

/// What a whitelist holds.
pub open spec fn whitelist_view(whitelist: Option<Vec<IpAddr>>) -> Option<Seq<IpAddr>> {
    match whitelist {
        Some(listed) => Some(listed@),
        None => None,
    }
}

/// The whitelist that applies to a remote node of `kind`: that of nodes for
/// a node, that of clients for one that bootstraps.
pub open spec fn whitelist_for(config: Config, kind: PeerKind) -> Option<Seq<IpAddr>> {
    match kind {
        PeerKind::Node => whitelist_view(config.whitelisted_node_ips),
        PeerKind::Bootstrap => whitelist_view(config.whitelisted_client_ips),
    }
}

/// The verdict on the handshake of a node that connected from `ip`: the
/// first of the three checks that fails, in the order network name, own
/// identifier, whitelist.
pub open spec fn spec_validate(
    config: Config,
    our_uid: Uid,
    handshake: Handshake,
    ip: IpAddr,
) -> Result<(), BootstrapAcceptError> {
    if name_view(handshake.network_name) != name_view(config.network_name) {
        Err(BootstrapAcceptError::InvalidNetworkName)
    } else if handshake.uid == our_uid {
        Err(BootstrapAcceptError::ConnectionFromOurself)
    } else if !spec_passes(whitelist_for(config, handshake.kind), ip) {
        Err(BootstrapAcceptError::NotWhitelisted)
    } else {
        Ok(())
    }
}

/// Whether two network names are the same.
pub fn same_name(a: &Option<String>, b: &Option<String>) -> (same: bool)
    ensures
        same == (name_view(*a) == name_view(*b)),
{
    match a {
        None => match b {
            None => true,
            Some(_) => false,
        },
        Some(x) => match b {
            None => false,
            Some(y) => *x == *y,
        },
    }
}

/// Checks the handshake of a node that connected from `ip`. The node is
/// accepted when it names this node's network, is not this node itself and,
/// where a whitelist is set for its kind, connects from a listed address.
pub fn validate(config: &Config, our_uid: Uid, handshake: &Handshake, ip: IpAddr) -> (verdict:
    Result<(), BootstrapAcceptError>)
    ensures
        verdict == spec_validate(*config, our_uid, *handshake, ip),
{
    if !same_name(&handshake.network_name, &config.network_name) {
        return Err(BootstrapAcceptError::InvalidNetworkName);
    }
    if handshake.uid == our_uid {
        return Err(BootstrapAcceptError::ConnectionFromOurself);
    }
    let pass = match handshake.kind {
        PeerKind::Node => passes(&config.whitelisted_node_ips, ip),
        PeerKind::Bootstrap => passes(&config.whitelisted_client_ips, ip),
    };
    if !pass {
        return Err(BootstrapAcceptError::NotWhitelisted);
    }
    Ok(())
}

/// The abstract state of a connected peer.
pub struct PeerView {
    /// The token the peer's socket is registered under.
    pub token: Token,
    pub uid: Uid,
    pub kind: PeerKind,
    /// The nonce of the handshake that made the peer.
    pub nonce: u64,
    pub socket: SocketView,
}

/// A connected remote node. A peer exists only once its handshake has
/// completed.
pub struct Peer {
    token: Token,
    uid: Uid,
    kind: PeerKind,
    nonce: u64,
    socket: Socket,
}

impl View for Peer {
    type V = PeerView;

    closed spec fn view(&self) -> PeerView {
        PeerView {
            token: self.token,
            uid: self.uid,
            kind: self.kind,
            nonce: self.nonce,
            socket: self.socket@,
        }
    }
}

impl Peer {
    /// The peer's socket is well formed.
    pub closed spec fn wf(&self) -> bool {
        self.socket.wf()
    }

    /// The peer that a completed handshake makes of `socket`, which is
    /// registered under `token`.
    pub fn new(token: Token, uid: Uid, kind: PeerKind, nonce: u64, socket: Socket) -> (peer: Peer)
        requires
            socket.wf(),
        ensures
            peer.wf(),
            peer@ == (PeerView { token, uid, kind, nonce, socket: socket@ }),
    {
        Peer { token, uid, kind, nonce, socket }
    }

    /// The token the peer's socket is registered under.
    pub fn token(&self) -> (token: Token)
        ensures
            token == self@.token,
    {
        self.token
    }

    /// The identifier of the remote node.
    pub fn uid(&self) -> (uid: Uid)
        ensures
            uid == self@.uid,
    {
        self.uid
    }

    /// What the remote node is to this one.
    pub fn kind(&self) -> (kind: PeerKind)
        ensures
            kind == self@.kind,
    {
        self.kind
    }

    /// The nonce of the handshake that made the peer.
    pub fn nonce(&self) -> (nonce: u64)
        ensures
            nonce == self@.nonce,
    {
        self.nonce
    }

    /// The framed socket of the peer.
    pub fn socket(&self) -> (socket: &Socket)
        ensures
            socket@ == self@.socket,
            socket.wf() == self.wf(),
    {
        &self.socket
    }

    /// Queues `msg` for the peer, as `Socket::write` does.
    pub fn send(&mut self, msg: Vec<u8>, priority: Priority) -> (result: Result<bool, SocketError>)
        requires
            old(self).wf(),
        ensures
            final(self).wf(),
            result == (if msg@.len() > crate::net::socket::MAX_PAYLOAD_SIZE {
                Err(SocketError::PayloadTooLarge)
            } else if old(self)@.socket.blocks(priority) {
                Err(SocketError::WouldBlock)
            } else {
                Ok(old(self)@.socket.idle())
            }),
            final(self)@ == (PeerView {
                socket: if result is Ok {
                    old(self)@.socket.enqueue(msg@, priority)
                } else {
                    old(self)@.socket
                },
                ..old(self)@
            }),
    {
        self.socket.write(msg, priority)
    }

    /// Makes the next frame ready to send, as `Socket::load` does.
    pub fn load(&mut self)
        requires
            old(self).wf(),
        ensures
            final(self).wf(),
            final(self)@ == (PeerView { socket: old(self)@.socket.load(), ..old(self)@ }),
    {
        self.socket.load();
    }

    /// Accounts for `n` bytes that the stream took, as `Socket::wrote`
    /// does.
    pub fn wrote(&mut self, n: usize) -> (drained: bool)
        requires
            old(self).wf(),
        ensures
            final(self).wf(),
            final(self)@ == (PeerView { socket: old(self)@.socket.wrote(n as nat), ..old(self)@ }),
            drained == (!old(self)@.socket.idle() && final(self)@.socket.idle()),
    {
        self.socket.wrote(n)
    }

    /// Takes in `bytes` that the stream gave and reads every whole message
    /// out of what has come in. The flag tells whether the peer announced a
    /// payload of more than `MAX_PAYLOAD_SIZE` bytes, on which it is to be
    /// ended.
    pub fn readable(&mut self, bytes: &[u8]) -> (result: (Vec<Vec<u8>>, bool))
        requires
            old(self).wf(),
        ensures
            final(self).wf(),
            payloads(result.0@) == spec_drain(old(self)@.socket.incoming + bytes@).messages,
            result.1 == spec_drain(old(self)@.socket.incoming + bytes@).too_large,
            final(self)@ == (PeerView {
                socket: SocketView {
                    incoming: spec_drain(old(self)@.socket.incoming + bytes@).rest,
                    ..old(self)@.socket
                },
                ..old(self)@
            }),
    {
        self.socket.received(bytes);
        self.socket.drain()
    }
}

} // verus!
