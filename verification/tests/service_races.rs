use std::sync::mpsc;

use crust::common::{Context, EventSet, ReadyAction, Token};
use crust::config::Config;
use crust::event::{ConnectError, Event, NatError, PrivConnectionInfo, PubConnectionInfo};
use crust::net::addr::{Endpoint, IpAddr, MappedAddr, SocketAddr};
use crust::net::peer::{connect_nonce, PeerKind, Uid};
use crust::net::race::RaceStep;
use crust::net::service_discovery::{
    DiscoveryMsg, ReadAction, ReadEvent, SendOutcome, WriteAction,
};
use crust::service::races::{endpoints, events_of, kind_of, Outcome, RaceOp, Started};
use crust::service::{Goal, Service};

fn addr(n: u32, port: u16) -> SocketAddr {
    SocketAddr::new(IpAddr::V4(n), port)
}

fn ep(n: u32) -> Endpoint {
    Endpoint::Tcp(addr(n, 7000))
}

fn service_with_contacts(contacts: Vec<Endpoint>) -> Service {
    let mut config = Config::new();
    config.hard_coded_contacts = contacts;
    Service::new(Uid(1), config, 1 << 20)
}

fn nothing() -> Outcome {
    Outcome { events: vec![], close: vec![], winner: None }
}

#[test]
fn bootstrap_to_lone_peer() {
    // B knows A by a hard-coded contact.
    let mut b = service_with_contacts(vec![ep(0x7f00_0001)]);
    let started = b.bootstrap(&vec![], false);
    assert_eq!(
        started,
        Started {
            context: Some(Context(0)),
            attempts: vec![(Token(0), ep(0x7f00_0001))],
            events: vec![],
        }
    );
    // The handshake with A, whose uid is 9, completes on the one attempt.
    let outcome = b.attempt_succeeded(Token(0), Uid(9), 1234);
    assert_eq!(
        outcome,
        Outcome {
            events: vec![
                Event::BootstrapConnect(Uid(9), PeerKind::Bootstrap),
                Event::BootstrappedTo(Uid(9)),
            ],
            close: vec![],
            winner: Some(Token(0)),
        }
    );
    assert!(b.is_connected(Uid(9)));
    assert_eq!(b.token_of(Uid(9)), Some(Token(0)));

    // A, which listens on TCP :7000, sees B's connection and handshake.
    let mut config = Config::new();
    config.tcp_acceptor_port = Some(7000);
    let mut a = Service::new(Uid(9), config, 1 << 20);
    assert_eq!(a.listener_port(), Some(7000));
    assert_eq!(a.listener_bound(Some(7000)).1, Event::ListenerStarted(7000));
    let from_b = a.accepted(addr(0x7f00_0001, 51234)).unwrap();
    let hello = crust::net::peer::Handshake {
        network_name: None,
        uid: Uid(1),
        kind: PeerKind::Bootstrap,
        pub_info: info(1, &[]),
        nonce: 1234,
    };
    let (_, event) = a.handshake(from_b, &hello);
    assert_eq!(event, Some(Event::BootstrapAccept(Uid(1), PeerKind::Bootstrap)));
    assert!(a.is_connected(Uid(1)));
    // The race is over: nothing more comes of it.
    assert_eq!(b.race_expired(Context(0)), nothing());
    assert_eq!(b.attempt_failed(Token(0)), nothing());
}

#[test]
fn bootstrap_failure() {
    let mut c = service_with_contacts(vec![Endpoint::Tcp(addr(0x7f00_0001, 1))]);
    let started = c.bootstrap(&vec![], false);
    assert_eq!(started.attempts, vec![(Token(0), Endpoint::Tcp(addr(0x7f00_0001, 1)))]);
    assert_eq!(started.events, vec![]);
    // The one connection is refused.
    assert_eq!(
        c.attempt_failed(Token(0)),
        Outcome { events: vec![Event::BootstrapFailed], close: vec![Token(0)], winner: None }
    );
    assert_eq!(c.peer_count(), 0);
    // The overall timeout fires later and finds nothing to tell.
    assert_eq!(c.race_expired(Context(0)), nothing());
}

#[test]
fn bootstrap_without_candidates_fails_at_once() {
    let mut service = service_with_contacts(vec![]);
    assert_eq!(
        service.bootstrap(&vec![], false),
        Started { context: None, attempts: vec![], events: vec![Event::BootstrapFailed] }
    );
}

#[test]
fn bootstrap_without_candidates_waits_for_discovery() {
    let mut service = service_with_contacts(vec![]);
    let started = service.bootstrap(&vec![], true);
    assert_eq!(started, Started { context: Some(Context(0)), attempts: vec![], events: vec![] });
    let found = service.discovered(Context(0), addr(0x0a00_0005, 5483));
    assert_eq!(found, Some((Token(0), Endpoint::Tcp(addr(0x0a00_0005, 5483)))));
    assert_eq!(
        service.attempt_failed(Token(0)),
        Outcome { events: vec![], close: vec![Token(0)], winner: None }
    );
    assert_eq!(
        service.discovery_ended(Context(0)),
        Outcome { events: vec![Event::BootstrapFailed], close: vec![], winner: None }
    );
    assert_eq!(service.discovered(Context(0), addr(0x0a00_0006, 5483)), None);
}

#[test]
fn bootstrap_interleaves_cache_and_hard_coded_contacts() {
    let mut service = service_with_contacts(vec![ep(10), ep(20)]);
    let started = service.bootstrap(&vec![ep(1), ep(2), ep(3)], false);
    assert_eq!(
        started.attempts,
        vec![
            (Token(0), ep(1)),
            (Token(1), ep(10)),
            (Token(2), ep(2)),
            (Token(3), ep(20)),
            (Token(4), ep(3)),
        ]
    );
    // The third attempt wins: the others in flight are closed.
    assert_eq!(service.attempt_failed(Token(1)).close, vec![Token(1)]);
    let outcome = service.attempt_succeeded(Token(2), Uid(5), 77);
    assert_eq!(outcome.close, vec![Token(0), Token(3), Token(4)]);
    assert_eq!(outcome.events.len(), 2);
    assert_eq!(service.token_of(Uid(5)), Some(Token(2)));
    // A late success of a loser counts for nothing.
    assert_eq!(service.attempt_succeeded(Token(3), Uid(6), 1), nothing());
    assert_eq!(service.peer_count(), 1);
}

#[test]
fn bootstrap_times_out_once() {
    let mut service = service_with_contacts(vec![ep(10), ep(20)]);
    let started = service.bootstrap(&vec![], true);
    let context = started.context.unwrap();
    assert_eq!(
        service.race_expired(context),
        Outcome {
            events: vec![Event::BootstrapFailed],
            close: vec![Token(0), Token(1)],
            winner: None,
        }
    );
    assert_eq!(service.race_expired(context), nothing());
    assert_eq!(service.stop_bootstrap(context), nothing());
}

#[test]
fn stopped_bootstrap_is_silent() {
    let mut service = service_with_contacts(vec![ep(10), ep(20)]);
    let context = service.bootstrap(&vec![], false).context.unwrap();
    assert_eq!(
        service.stop_bootstrap(context),
        Outcome { events: vec![], close: vec![Token(0), Token(1)], winner: None }
    );
    assert_eq!(service.attempt_succeeded(Token(0), Uid(5), 7), nothing());
    assert_eq!(service.peer_count(), 0);
}

fn info(uid: u64, addrs: &[u32]) -> PubConnectionInfo {
    PubConnectionInfo {
        uid: Uid(uid),
        for_direct: addrs.iter().map(|a| MappedAddr::new(addr(*a, 5000), false)).collect(),
    }
}

#[test]
fn direct_connect_keeps_the_socket_with_the_shared_nonce() {
    let mut service = Service::new(Uid(1), Config::new(), 1 << 20);
    let started = service.connect(&info(2, &[100, 200, 300]));
    assert_eq!(started.context, Some(Context(0)));
    assert_eq!(
        started.attempts,
        vec![
            (Token(0), Endpoint::Tcp(addr(100, 5000))),
            (Token(1), Endpoint::Tcp(addr(200, 5000))),
            (Token(2), Endpoint::Tcp(addr(300, 5000))),
        ]
    );
    let nonce = connect_nonce(Uid(1), Uid(2));
    // A handshake with a wrong nonce fails its attempt.
    assert_eq!(
        service.attempt_succeeded(Token(0), Uid(2), nonce + 1),
        Outcome { events: vec![], close: vec![Token(0)], winner: None }
    );
    // So does one from another node.
    assert_eq!(
        service.attempt_succeeded(Token(1), Uid(3), connect_nonce(Uid(1), Uid(3))),
        Outcome { events: vec![], close: vec![Token(1)], winner: None }
    );
    assert_eq!(
        service.attempt_succeeded(Token(2), Uid(2), nonce),
        Outcome {
            events: vec![Event::ConnectSuccess(Uid(2))],
            close: vec![],
            winner: Some(Token(2)),
        }
    );
    assert_eq!(service.token_of(Uid(2)), Some(Token(2)));
}

#[test]
fn direct_connect_fails_when_every_attempt_failed() {
    let mut service = Service::new(Uid(1), Config::new(), 1 << 20);
    let _ = service.connect(&info(2, &[100, 200]));
    assert_eq!(
        service.attempt_failed(Token(0)),
        Outcome { events: vec![], close: vec![Token(0)], winner: None }
    );
    assert_eq!(
        service.attempt_failed(Token(1)),
        Outcome {
            events: vec![Event::ConnectFailure(Uid(2), ConnectError::AllAttemptsFailed)],
            close: vec![Token(1)],
            winner: None,
        }
    );
}

#[test]
fn direct_connect_times_out() {
    let mut service = Service::new(Uid(1), Config::new(), 1 << 20);
    let context = service.connect(&info(2, &[100, 200])).context.unwrap();
    assert_eq!(
        service.race_expired(context),
        Outcome {
            events: vec![Event::ConnectFailure(Uid(2), ConnectError::TimedOut)],
            close: vec![Token(0), Token(1)],
            winner: None,
        }
    );
}

#[test]
fn direct_connect_without_addresses_fails_at_once() {
    let mut service = Service::new(Uid(1), Config::new(), 1 << 20);
    assert_eq!(
        service.connect(&info(2, &[])),
        Started {
            context: None,
            attempts: vec![],
            events: vec![Event::ConnectFailure(Uid(2), ConnectError::AllAttemptsFailed)],
        }
    );
}

#[test]
fn second_connection_to_a_peer_is_settled_by_the_nonce() {
    let mut service = Service::new(Uid(1), Config::new(), 1 << 20);
    let nonce = connect_nonce(Uid(1), Uid(2));
    let _ = service.connect(&info(2, &[100]));
    let _ = service.attempt_succeeded(Token(0), Uid(2), nonce);
    // A second connect to the same node carries the same nonce: the old
    // socket stays and the new one is closed.
    let _ = service.connect(&info(2, &[100]));
    assert_eq!(
        service.attempt_succeeded(Token(1), Uid(2), nonce),
        Outcome {
            events: vec![Event::ConnectSuccess(Uid(2))],
            close: vec![Token(1)],
            winner: Some(Token(1)),
        }
    );
    assert_eq!(service.token_of(Uid(2)), Some(Token(0)));
    assert_eq!(service.peer_count(), 1);
}

#[test]
fn bootstrap_replaces_a_peer_with_a_higher_nonce() {
    let mut service = service_with_contacts(vec![ep(10)]);
    let first = service.accepted(addr(10, 40000)).unwrap();
    let _ = service.handshake(
        first,
        &crust::net::peer::Handshake {
            network_name: None,
            uid: Uid(4),
            kind: PeerKind::Node,
            pub_info: info(4, &[]),
            nonce: 900,
        },
    );
    let started = service.bootstrap(&vec![], false);
    let token = started.attempts[0].0;
    let outcome = service.attempt_succeeded(token, Uid(4), 100);
    assert_eq!(outcome.close, vec![first]);
    assert_eq!(outcome.winner, Some(token));
    assert_eq!(service.token_of(Uid(4)), Some(token));
    assert_eq!(service.peer_count(), 1);
}

#[test]
fn events_and_kinds_of_races() {
    let won = RaceStep::Won { winner: Token(1), losers: vec![] };
    let lost = RaceStep::Lost { losers: vec![] };
    assert_eq!(
        events_of(Goal::Connect(Uid(3)), RaceOp::Won(Token(1)), &won, Uid(3)),
        vec![Event::ConnectSuccess(Uid(3))]
    );
    assert_eq!(
        events_of(Goal::Connect(Uid(3)), RaceOp::Expire, &lost, Uid(0)),
        vec![Event::ConnectFailure(Uid(3), ConnectError::TimedOut)]
    );
    assert_eq!(
        events_of(Goal::Connect(Uid(3)), RaceOp::Failed(Token(1)), &lost, Uid(0)),
        vec![Event::ConnectFailure(Uid(3), ConnectError::AllAttemptsFailed)]
    );
    assert_eq!(
        events_of(Goal::Bootstrap, RaceOp::Cancel, &RaceStep::Cancelled { losers: vec![] }, Uid(0)),
        vec![]
    );
    assert_eq!(kind_of(Goal::Bootstrap), PeerKind::Bootstrap);
    assert_eq!(kind_of(Goal::Connect(Uid(1))), PeerKind::Node);
    assert_eq!(
        endpoints(&vec![MappedAddr::new(addr(1, 2), true), MappedAddr::new(addr(3, 4), false)]),
        vec![Endpoint::Tcp(addr(1, 2)), Endpoint::Tcp(addr(3, 4))]
    );
}

#[test]
fn connection_info_is_prepared_or_not() {
    let service = Service::new(Uid(1), Config::new(), 0);
    let mapped = vec![MappedAddr::new(addr(8, 9), false)];
    assert_eq!(
        service.prepare_connection_info(7, Ok(mapped.clone()), 55),
        Event::ConnectionInfoPrepared {
            result_token: 7,
            result: Ok(PrivConnectionInfo { uid: Uid(1), for_direct: mapped.clone(), secret: 55 }),
        }
    );
    assert_eq!(
        service.prepare_connection_info(8, Err(NatError::StunFailed), 55),
        Event::ConnectionInfoPrepared { result_token: 8, result: Err(NatError::StunFailed) }
    );
    assert_eq!(
        service.prepare_connection_info(9, Err(NatError::MappingFailed), 55),
        Event::ConnectionInfoPrepared { result_token: 9, result: Err(NatError::MappingFailed) }
    );
    let ours = PrivConnectionInfo { uid: Uid(1), for_direct: mapped.clone(), secret: 55 };
    assert_eq!(
        Service::to_pub_connection_info(&ours),
        PubConnectionInfo { uid: Uid(1), for_direct: mapped }
    );
}

#[test]
fn beacon_round_trip_between_services() {
    let mut config = Config::new();
    config.service_discovery_port = Some(65530);
    let mut a = Service::new(Uid(1), config, 0);
    let beacon_a = a.start_service_discovery().unwrap();
    assert!(a.set_service_discovery_listen(beacon_a, true));
    let listeners_a = vec![MappedAddr::new(addr(0x8a8b_8c96, 54321), false)];

    let mut config = Config::new();
    config.service_discovery_port = Some(65530);
    let mut b = Service::new(Uid(2), config, 0);
    let beacon_b = b.start_service_discovery().unwrap();
    let (tx, rx) = mpsc::channel();
    assert!(b.register_observer(beacon_b, tx));
    let (to, request) = b.seek_peers(beacon_b).unwrap();
    assert_eq!(to, addr(0xffff_ffff, 65530));
    let guid_b = match &request {
        DiscoveryMsg::Request { guid } => *guid,
        DiscoveryMsg::Response(_) => panic!("a request was expected"),
    };
    let guid_a = match a.seek_peers(beacon_a).unwrap().1 {
        DiscoveryMsg::Request { guid } => guid,
        DiscoveryMsg::Response(_) => panic!("a request was expected"),
    };
    if guid_a == guid_b {
        return;
    }

    let from_b = addr(0x0a00_0002, 65530);
    assert_eq!(
        a.discovery_ready(
            beacon_a,
            EventSet { readable: true, writable: false, error: false, hup: false }
        ),
        Some(ReadyAction::Proceed { read: true, write: false })
    );
    assert_eq!(
        a.discovery_read(beacon_a, ReadEvent::Message { from: from_b, msg: request }),
        Some(ReadAction::Reply)
    );
    assert_eq!(a.pending_reply(beacon_a), Some(from_b));
    let response = crust::net::service_discovery::ServiceDiscovery::response(&listeners_a);
    assert_eq!(
        a.discovery_write(beacon_a, SendOutcome::Sent),
        Some(WriteAction::Reregister(EventSet::listening()))
    );
    assert_eq!(a.pending_reply(beacon_a), None);

    assert_eq!(
        b.discovery_read(
            beacon_b,
            ReadEvent::Message { from: addr(0x0a00_0001, 65530), msg: response }
        ),
        Some(ReadAction::Idle)
    );
    assert_eq!(rx.recv().unwrap(), vec![addr(0x8a8b_8c96, 54321)]);
}

#[test]
fn beacon_ends_on_failure() {
    let mut config = Config::new();
    config.service_discovery_port = Some(9999);
    let mut service = Service::new(Uid(1), config, 0);
    let beacon = service.start_service_discovery().unwrap();
    assert_eq!(service.discovery_read(beacon, ReadEvent::Failed), Some(ReadAction::Terminate));
    assert_eq!(service.seek_peers(beacon), None);
    assert_eq!(service.discovery_read(beacon, ReadEvent::NotReady), None);

    let beacon = service.start_service_discovery().unwrap();
    assert_eq!(
        service.discovery_ready(
            beacon,
            EventSet { readable: true, writable: true, error: false, hup: true }
        ),
        Some(ReadyAction::Terminate)
    );
    assert!(!service.set_service_discovery_listen(beacon, true));

    let beacon = service.start_service_discovery().unwrap();
    assert_eq!(
        service.discovery_write(beacon, SendOutcome::Unencodable),
        Some(WriteAction::Terminate)
    );
    assert_eq!(service.discovery_write(beacon, SendOutcome::Sent), None);

    let beacon = service.start_service_discovery().unwrap();
    assert!(service.state_ended(beacon));
    assert!(!service.state_ended(beacon));
}

#[test]
fn no_beacon_without_a_port() {
    let mut service = Service::new(Uid(1), Config::new(), 0);
    assert_eq!(service.start_service_discovery(), None);
    let (tx, _rx) = mpsc::channel();
    assert!(!service.register_observer(Token(0), tx));
}

#[test]
fn state_ended_leaves_peers_and_races_alone() {
    let mut service = service_with_contacts(vec![ep(10)]);
    let listener = service.listener_bound(Some(7000)).0.unwrap();
    let accepted = service.accepted(addr(3, 4)).unwrap();
    let started = service.bootstrap(&vec![], false);
    let attempt = started.attempts[0].0;
    assert_eq!(service.owner_kind(attempt), Some(crust::common::Kind::BootstrapConnect));
    let connecting = service.connect(&info(3, &[77])).attempts[0].0;
    assert_eq!(service.owner_kind(connecting), Some(crust::common::Kind::ConnectAttempt));
    assert!(!service.state_ended(connecting));
    assert!(!service.state_ended(attempt));
    let _ = service.attempt_succeeded(attempt, Uid(9), 1);
    assert!(!service.state_ended(attempt));
    assert!(service.is_connected(Uid(9)));
    assert!(service.state_ended(accepted));
    assert!(service.state_ended(listener));
}
