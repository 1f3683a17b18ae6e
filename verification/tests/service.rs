use crust::common::{EventSet, Kind, ReadyAction, State, Token};
use crust::config::Config;
use crust::event::{Event, PubConnectionInfo};
use crust::net::addr::{IpAddr, SocketAddr};
use crust::net::peer::{BootstrapAcceptError, Handshake, PeerKind, Uid};
use crust::net::socket::{encode, MAX_PAYLOAD_SIZE};
use crust::service::peers::{Promotion, Sent};
use crust::service::Service;

fn remote(n: u32) -> SocketAddr {
    SocketAddr::new(IpAddr::V4(n), 40000)
}

fn hello(uid: u64, kind: PeerKind, nonce: u64) -> Handshake {
    Handshake {
        network_name: None,
        uid: Uid(uid),
        kind,
        pub_info: PubConnectionInfo { uid: Uid(uid), for_direct: vec![] },
        nonce,
    }
}

/// A service with the uid 1 and one peer with the uid `uid`.
fn with_peer(uid: u64, nonce: u64) -> (Service, Token) {
    let mut service = Service::new(Uid(1), Config::new(), 1 << 20);
    let token = service.accepted(remote(7)).unwrap();
    let (result, event) = service.handshake(token, &hello(uid, PeerKind::Bootstrap, nonce));
    assert_eq!(result, Ok(Promotion::Connected { replaced: None }));
    assert_eq!(event, Some(Event::BootstrapAccept(Uid(uid), PeerKind::Bootstrap)));
    (service, token)
}

#[test]
fn accepted_handshake_makes_a_peer() {
    let (service, token) = with_peer(2, 5);
    assert!(service.is_connected(Uid(2)));
    assert_eq!(service.token_of(Uid(2)), Some(token));
    assert_eq!(service.peer_count(), 1);
    assert!(!service.is_connected(Uid(3)));
    assert_eq!(service.token_of(Uid(3)), None);
}

#[test]
fn refused_handshake_closes_the_connection() {
    let mut config = Config::new();
    config.network_name = Some("main".to_string());
    let mut service = Service::new(Uid(1), config, 1 << 20);
    let token = service.accepted(remote(7)).unwrap();
    let (result, event) = service.handshake(token, &hello(2, PeerKind::Node, 5));
    assert_eq!(result, Err(BootstrapAcceptError::InvalidNetworkName));
    assert_eq!(event, None);
    assert_eq!(service.peer_count(), 0);
    // The token is gone: a second handshake on it finds nothing.
    let again = Handshake { network_name: Some("main".to_string()), ..hello(2, PeerKind::Node, 5) };
    assert_eq!(service.handshake(token, &again), (Ok(Promotion::UnknownToken), None));

    let token = service.accepted(remote(7)).unwrap();
    let own = Handshake { network_name: Some("main".to_string()), ..hello(1, PeerKind::Node, 5) };
    assert_eq!(
        service.handshake(token, &own),
        (Err(BootstrapAcceptError::ConnectionFromOurself), None)
    );
}

#[test]
fn nothing_is_accepted_while_bootstrap_is_off() {
    let mut service = Service::new(Uid(1), Config::new(), 1 << 20);
    service.set_accept_bootstrap(false);
    assert_eq!(service.accepted(remote(7)), None);
    service.set_accept_bootstrap(true);
    assert!(service.accepted(remote(7)).is_some());
}

#[test]
fn duplicate_connection_keeps_the_lower_nonce() {
    // The new connection has the higher nonce: it is closed.
    let (mut service, first) = with_peer(2, 5);
    let second = service.accepted(remote(8)).unwrap();
    let (result, event) = service.handshake(second, &hello(2, PeerKind::Bootstrap, 6));
    assert_eq!(result, Ok(Promotion::Duplicate));
    assert_eq!(event, None);
    assert_eq!(service.token_of(Uid(2)), Some(first));
    assert_eq!(service.peer_count(), 1);

    // An equal nonce leaves the old connection in place.
    let third = service.accepted(remote(9)).unwrap();
    let (result, _) = service.handshake(third, &hello(2, PeerKind::Bootstrap, 5));
    assert_eq!(result, Ok(Promotion::Duplicate));
    assert_eq!(service.token_of(Uid(2)), Some(first));

    // The new connection has the lower nonce: it takes the place of the old.
    let fourth = service.accepted(remote(10)).unwrap();
    let (result, event) = service.handshake(fourth, &hello(2, PeerKind::Bootstrap, 4));
    assert_eq!(result, Ok(Promotion::Connected { replaced: Some(first) }));
    assert_eq!(event, Some(Event::BootstrapAccept(Uid(2), PeerKind::Bootstrap)));
    assert_eq!(service.token_of(Uid(2)), Some(fourth));
    assert_eq!(service.peer_count(), 1);
    // The old socket's token belongs to no peer any more.
    assert_eq!(service.peer_lost(first), None);
    assert!(service.is_connected(Uid(2)));
}

#[test]
fn framed_echo() {
    let (mut a, to_b) = with_peer(2, 5);
    let mut b = Service::new(Uid(2), Config::new(), 1 << 20);
    let from_a = b.accepted(remote(3)).unwrap();
    let _ = b.handshake(from_a, &hello(1, PeerKind::Bootstrap, 5));

    assert_eq!(
        a.send(Uid(2), b"hello".to_vec(), 1),
        Sent::Queued { token: to_b, reregister: Some(EventSet::interest(true)) }
    );
    let wire = a.peer_pending(to_b);
    assert_eq!(wire, encode(b"hello").unwrap());
    assert_eq!(a.peer_wrote(to_b, wire.len()), Some(EventSet::listening()));
    assert!(a.peer_pending(to_b).is_empty());

    assert_eq!(
        b.peer_readable(from_a, &wire),
        vec![Event::NewMessage(Uid(1), vec![0x68, 0x65, 0x6c, 0x6c, 0x6f])]
    );
}

#[test]
fn messages_split_over_reads_arrive_whole_and_in_order() {
    let (mut service, token) = with_peer(2, 5);
    let mut wire = encode(b"first").unwrap();
    wire.extend_from_slice(&encode(b"second").unwrap());
    wire.extend_from_slice(&encode(b"").unwrap());
    assert_eq!(service.peer_readable(token, &wire[..3]), vec![]);
    assert_eq!(
        service.peer_readable(token, &wire[3..12]),
        vec![Event::NewMessage(Uid(2), b"first".to_vec())]
    );
    assert_eq!(
        service.peer_readable(token, &wire[12..]),
        vec![
            Event::NewMessage(Uid(2), b"second".to_vec()),
            Event::NewMessage(Uid(2), vec![]),
        ]
    );
}

#[test]
fn oversize_rejection() {
    let (mut a, to_b) = with_peer(2, 5);
    let message = vec![3u8; MAX_PAYLOAD_SIZE + 1];
    assert_eq!(
        a.send(Uid(2), message.clone(), 0),
        Sent::Refused(Event::WriteMsgSizeProhibitive(Uid(2), message))
    );
    // No frame is on its way, and the peer stays up.
    assert!(a.peer_pending(to_b).is_empty());
    assert!(a.is_connected(Uid(2)));
    assert_eq!(
        a.send(Uid(2), vec![3u8; MAX_PAYLOAD_SIZE], 0),
        Sent::Queued { token: to_b, reregister: Some(EventSet::interest(true)) }
    );
}

#[test]
fn oversize_frame_received_aborts_the_peer() {
    let (mut service, token) = with_peer(2, 5);
    let mut wire = encode(b"last words").unwrap();
    wire.extend_from_slice(&[0x00, 0x20, 0x00, 0x01]);
    assert_eq!(
        service.peer_readable(token, &wire),
        vec![Event::NewMessage(Uid(2), b"last words".to_vec()), Event::LostPeer(Uid(2))]
    );
    assert!(!service.is_connected(Uid(2)));
    assert_eq!(service.peer_count(), 0);
    assert_eq!(service.peer_readable(token, &[1, 2, 3]), vec![]);
}

#[test]
fn lost_peer_on_close() {
    let (mut a, to_b) = with_peer(2, 5);
    let mut b = Service::new(Uid(2), Config::new(), 1 << 20);
    let from_a = b.accepted(remote(3)).unwrap();
    let _ = b.handshake(from_a, &hello(1, PeerKind::Bootstrap, 5));

    assert_eq!(a.disconnect(Uid(2)), Some((to_b, Event::LostPeer(Uid(2)))));
    assert!(!a.is_connected(Uid(2)));
    assert_eq!(a.disconnect(Uid(2)), None);
    assert_eq!(a.send(Uid(2), b"x".to_vec(), 0), Sent::NoSuchPeer);
    // The other side sees its socket closed.
    assert_eq!(b.peer_lost(from_a), Some(Event::LostPeer(Uid(1))));
    assert_eq!(b.token_of(Uid(1)), None);
    assert_eq!(b.peer_lost(from_a), None);
}

#[test]
fn send_to_a_stranger_finds_no_peer() {
    let (mut service, _) = with_peer(2, 5);
    assert_eq!(service.send(Uid(3), b"x".to_vec(), 0), Sent::NoSuchPeer);
    assert_eq!(service.send(Uid(3), vec![0; MAX_PAYLOAD_SIZE + 1], 0), Sent::NoSuchPeer);
}

#[test]
fn backpressure_reaches_the_sender() {
    let mut service = Service::new(Uid(1), Config::new(), 8);
    let token = service.accepted(remote(7)).unwrap();
    let _ = service.handshake(token, &hello(2, PeerKind::Node, 5));
    assert_eq!(
        service.send(Uid(2), vec![0; 10], 4),
        Sent::Queued { token, reregister: Some(EventSet::interest(true)) }
    );
    assert_eq!(service.send(Uid(2), vec![0; 10], 4), Sent::WouldBlock);
    assert_eq!(service.send(Uid(2), vec![0; 10], 0), Sent::Queued { token, reregister: None });
}

#[test]
fn listener_comes_up_or_fails() {
    let mut config = Config::new();
    assert_eq!(Service::new(Uid(1), Config::new(), 0).listener_port(), None);
    config.tcp_acceptor_port = Some(7000);
    let mut service = Service::new(Uid(1), config, 0);
    assert_eq!(service.listener_port(), Some(7000));
    let (token, event) = service.listener_bound(Some(7000));
    assert_eq!(token, Some(Token(0)));
    assert_eq!(event, Event::ListenerStarted(7000));
    assert_eq!(service.listener_bound(None), (None, Event::ListenerFailed));
    // The listener's token belongs to no peer.
    assert_eq!(service.peer_lost(Token(0)), None);
    let _ = State::Listener(7000);
}

#[test]
fn peer_ready_sorts_out_the_report() {
    let (mut service, token) = with_peer(2, 5);
    let set = |readable, writable, error, hup| EventSet { readable, writable, error, hup };
    assert_eq!(
        service.peer_ready(token, set(true, true, false, false)),
        (Some(ReadyAction::Proceed { read: true, write: true }), None)
    );
    assert_eq!(service.peer_ready(Token(77), set(true, true, false, false)), (None, None));
    assert_eq!(
        service.peer_ready(token, set(true, false, false, true)),
        (Some(ReadyAction::Terminate), Some(Event::LostPeer(Uid(2))))
    );
    assert!(!service.is_connected(Uid(2)));
    assert_eq!(service.peer_ready(token, set(true, false, false, false)), (None, None));
}

#[test]
fn owner_kind_tells_how_to_dispatch() {
    let mut config = Config::new();
    config.service_discovery_port = Some(9999);
    let mut service = Service::new(Uid(1), config, 0);
    let listener = service.listener_bound(Some(7000)).0.unwrap();
    let beacon = service.start_service_discovery().unwrap();
    let accepted = service.accepted(remote(1)).unwrap();
    let peer = service.accepted(remote(2)).unwrap();
    let _ = service.handshake(peer, &hello(2, PeerKind::Node, 1));
    assert_eq!(service.owner_kind(listener), Some(Kind::Listener));
    assert_eq!(service.owner_kind(beacon), Some(Kind::ServiceDiscovery));
    assert_eq!(service.owner_kind(accepted), Some(Kind::BootstrapAcceptor));
    assert_eq!(service.owner_kind(peer), Some(Kind::Peer));
    assert_eq!(service.owner_kind(Token(99)), None);
}

#[test]
fn shutdown_releases_every_token() {
    let mut config = Config::new();
    config.service_discovery_port = Some(9999);
    config.hard_coded_contacts = vec![
        crust::net::addr::Endpoint::Tcp(remote(5)),
        crust::net::addr::Endpoint::Tcp(remote(6)),
    ];
    let mut service = Service::new(Uid(1), config, 0);
    let listener = service.listener_bound(Some(7000)).0.unwrap();
    let beacon = service.start_service_discovery().unwrap();
    let gone = service.accepted(remote(1)).unwrap();
    assert!(service.state_ended(gone));
    let peer = service.accepted(remote(2)).unwrap();
    let _ = service.handshake(peer, &hello(2, PeerKind::Node, 1));
    let started = service.bootstrap(&vec![], false);
    let attempts: Vec<Token> = started.attempts.iter().map(|a| a.0).collect();

    let released = service.shutdown();
    assert_eq!(released, vec![listener, beacon, peer, attempts[0], attempts[1]]);
    assert_eq!(service.peer_count(), 0);
    assert_eq!(service.owner_kind(listener), None);
    assert_eq!(service.owner_kind(peer), None);
    assert_eq!(service.shutdown(), vec![]);
    // Tokens handed out afterwards are new ones.
    let next = service.accepted(remote(3)).unwrap();
    assert!(!released.contains(&next));
    assert!(next != gone);
}
