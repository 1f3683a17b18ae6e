//! What a service tells its embedder.

use vstd::prelude::*;
use crate::net::addr::MappedAddr;
use crate::net::peer::{PeerKind, Uid};

verus! {

/// Why a direct connect came to nothing.
#[derive(Clone, Copy, Debug, PartialEq, Eq, Structural)]
pub enum ConnectError {
    /// Every candidate address was tried in vain.
    AllAttemptsFailed,
    /// The attempt took longer than allowed.
    TimedOut,
}

/// Why no connection info could be prepared.
#[derive(Clone, Copy, Debug, PartialEq, Eq, Structural)]
pub enum NatError {
    /// No echo server answered the probe.
    StunFailed,
    /// The mapping could not be worked out for another reason.
    MappingFailed,
}

/// What a remote node needs to know to connect to this one directly.
#[derive(Debug, PartialEq, Eq)]
pub struct PubConnectionInfo {
    pub uid: Uid,
    /// The addresses to try, all of them at once.
    pub for_direct: Vec<MappedAddr>,
}

/// What this node keeps of a connection info it handed out.
#[derive(Debug, PartialEq, Eq)]
pub struct PrivConnectionInfo {
    pub uid: Uid,
    /// The addresses this node can be reached at.
    pub for_direct: Vec<MappedAddr>,
    /// The secret that ties a connect to the info it was prepared with.
    pub secret: u64,
}

/// An event of the service.
#[derive(Debug, PartialEq, Eq)]
pub enum Event {
    /// A node bootstrapped off this one.
    BootstrapAccept(Uid, PeerKind),
    /// This node bootstrapped off a node.
    BootstrapConnect(Uid, PeerKind),
    /// No contact could be bootstrapped off.
    BootstrapFailed,
    /// The node this one is bootstrapped to.
    BootstrappedTo(Uid),
    /// The listener can be reached from outside.
    ExternalReachabilityTestSuccess,
    /// The listener cannot be reached from outside.
    ExternalReachabilityTestFailure,
    /// The answer to a request for connection info.
    ConnectionInfoPrepared { result_token: u32, result: Result<PrivConnectionInfo, NatError> },
    /// A direct connect succeeded.
    ConnectSuccess(Uid),
    /// A direct connect came to nothing.
    ConnectFailure(Uid, ConnectError),
    /// A message of a peer.
    NewMessage(Uid, Vec<u8>),
    /// A peer is gone.
    LostPeer(Uid),
    /// The listener accepts connections on this port.
    ListenerStarted(u16),
    /// The listener could not be brought up, or broke.
    ListenerFailed,
    /// A message was too large to send; it is handed back.
    WriteMsgSizeProhibitive(Uid, Vec<u8>),
}

/// What an event says.
pub enum EventView {
    BootstrapAccept(Uid, PeerKind),
    BootstrapConnect(Uid, PeerKind),
    BootstrapFailed,
    BootstrappedTo(Uid),
    ExternalReachabilityTestSuccess,
    ExternalReachabilityTestFailure,
    ConnectionInfoPrepared {
        result_token: u32,
        result: Result<(Uid, Seq<MappedAddr>, u64), NatError>,
    },
    ConnectSuccess(Uid),
    ConnectFailure(Uid, ConnectError),
    NewMessage(Uid, Seq<u8>),
    LostPeer(Uid),
    ListenerStarted(u16),
    ListenerFailed,
    WriteMsgSizeProhibitive(Uid, Seq<u8>),
}

impl View for Event {
    type V = EventView;

    open spec fn view(&self) -> EventView {
        match self {
            Event::BootstrapAccept(uid, kind) => EventView::BootstrapAccept(*uid, *kind),
            Event::BootstrapConnect(uid, kind) => EventView::BootstrapConnect(*uid, *kind),
            Event::BootstrapFailed => EventView::BootstrapFailed,
            Event::BootstrappedTo(uid) => EventView::BootstrappedTo(*uid),
            Event::ExternalReachabilityTestSuccess => EventView::ExternalReachabilityTestSuccess,
            Event::ExternalReachabilityTestFailure => EventView::ExternalReachabilityTestFailure,
            Event::ConnectionInfoPrepared { result_token, result } => {
                EventView::ConnectionInfoPrepared {
                    result_token: *result_token,
                    result: match result {
                        Ok(info) => Ok((info.uid, info.for_direct@, info.secret)),
                        Err(e) => Err(*e),
                    },
                }
            },
            Event::ConnectSuccess(uid) => EventView::ConnectSuccess(*uid),
            Event::ConnectFailure(uid, reason) => EventView::ConnectFailure(*uid, *reason),
            Event::NewMessage(uid, msg) => EventView::NewMessage(*uid, msg@),
            Event::LostPeer(uid) => EventView::LostPeer(*uid),
            Event::ListenerStarted(port) => EventView::ListenerStarted(*port),
            Event::ListenerFailed => EventView::ListenerFailed,
            Event::WriteMsgSizeProhibitive(uid, msg) => EventView::WriteMsgSizeProhibitive(
                *uid,
                msg@,
            ),
        }
    }
}

/// What a list of events says.
pub open spec fn events_view(events: Seq<Event>) -> Seq<EventView> {
    events.map_values(|e: Event| e@)
}

} // verus!
