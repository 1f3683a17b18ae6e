use std::sync::mpsc;

use crust::common::{Context, Core, EventSet, ReadyAction, State, Token};
use crust::net::addr::{IpAddr, MappedAddr, SocketAddr};
use crust::net::service_discovery::{
    get_socket, retain_accepted, BindOutcome, BindStep, DiscoveryMsg, ReadAction, ReadEvent,
    SendOutcome, ServiceDiscovery, ServiceDiscoveryError, WriteAction,
};

fn v4(a: u8, b: u8, c: u8, d: u8, port: u16) -> SocketAddr {
    let ip = ((a as u32) << 24) | ((b as u32) << 16) | ((c as u32) << 8) | (d as u32);
    SocketAddr::new(IpAddr::V4(ip), port)
}

fn take(core: &mut Core<State>, context: Context) -> ServiceDiscovery {
    match core.remove_state(context) {
        Some(State::ServiceDiscovery(discovery)) => discovery,
        _ => panic!("no discovery state under the context"),
    }
}

#[test]
fn service_discovery() {
    // Node 0 listens and advertises one unrestricted mapping.
    let mut core0: Core<State> = Core::new();
    let context_0 = Context(0);
    let token_0 = ServiceDiscovery::start(&mut core0, context_0, 65530)
        .expect("Could not spawn ServiceDiscovery_0");
    let addr = v4(138, 139, 140, 150, 54321);
    let mapped_addr = MappedAddr::new(addr, false);
    let listeners_0 = vec![mapped_addr];
    let mut sd0 = take(&mut core0, context_0);
    assert_eq!(sd0.token(), token_0);
    sd0.set_listen(true);

    // Node 1 has an observer and seeks peers.
    let mut core1: Core<State> = Core::new();
    let context_1 = Context(0);
    let _ = ServiceDiscovery::start(&mut core1, context_1, 65530)
        .expect("Could not spawn ServiceDiscovery_1");
    let mut sd1 = take(&mut core1, context_1);
    let (tx, rx) = mpsc::channel();
    sd1.register_observer(tx);
    let (to, request) = sd1.seek_peers();
    assert_eq!(to, v4(255, 255, 255, 255, 65530));

    // The request reaches node 0, which answers it.
    let node_1 = v4(192, 168, 0, 7, 65531);
    if sd0.guid() == sd1.guid() {
        // Two random identifiers met: node 0 takes the request for its own.
        return;
    }
    let action = sd0.read(ReadEvent::Message { from: node_1, msg: request });
    assert_eq!(action, ReadAction::Reply);
    assert_eq!(sd0.pending_reply(), Some(node_1));
    let response = ServiceDiscovery::response(&listeners_0);
    assert_eq!(
        sd0.write(SendOutcome::Sent),
        WriteAction::Reregister(EventSet::listening())
    );
    assert_eq!(sd0.pending_reply(), None);

    // The response reaches node 1, whose observer gets the listeners.
    let action = sd1.read(ReadEvent::Message { from: v4(192, 168, 0, 3, 65530), msg: response });
    assert_eq!(action, ReadAction::Idle);
    let peer_listeners = rx.recv().unwrap();
    assert_eq!(
        peer_listeners,
        listeners_0.iter().map(|elt| elt.addr).collect::<Vec<_>>()
    );
    assert_eq!(peer_listeners, vec![v4(138, 139, 140, 150, 54321)]);
    assert!(rx.try_recv().is_err());
}

#[test]
fn start_registers_a_fresh_state() {
    let mut core: Core<State> = Core::new();
    let token = ServiceDiscovery::start_with_guid(&mut core, Context(3), 9999, 42).unwrap();
    assert_eq!(token, Token(0));
    assert_eq!(core.get_context(token), Some(Context(3)));
    let sd = take(&mut core, Context(3));
    assert_eq!(sd.token(), Token(0));
    assert_eq!(sd.guid(), 42);
    assert!(!sd.is_listening());
    assert_eq!(sd.observer_count(), 0);
    assert_eq!(sd.pending_reply(), None);
    assert_eq!(sd.interest(), EventSet { readable: true, writable: false, error: true, hup: true });
    let (to, msg) = sd.seek_peers();
    assert_eq!(to, SocketAddr::new(IpAddr::V4(0xffff_ffff), 9999));
    match msg {
        DiscoveryMsg::Request { guid } => assert_eq!(guid, 42),
        DiscoveryMsg::Response(_) => panic!("a request was expected"),
    }
}

#[test]
fn start_draws_identifiers_at_random() {
    let mut seen = Vec::new();
    for i in 0..8 {
        let mut core: Core<State> = Core::new();
        let _ = ServiceDiscovery::start(&mut core, Context(i), 9999).unwrap();
        seen.push(take(&mut core, Context(i)).guid());
    }
    seen.sort();
    seen.dedup();
    assert!(seen.len() > 1);
}

#[test]
fn seek_peers_asks_the_same_twice() {
    let sd = ServiceDiscovery::new(Token(1), 65530, 7);
    let (to_a, msg_a) = sd.seek_peers();
    let (to_b, msg_b) = sd.seek_peers();
    assert_eq!(to_a, to_b);
    match (msg_a, msg_b) {
        (DiscoveryMsg::Request { guid: a }, DiscoveryMsg::Request { guid: b }) => {
            assert_eq!(a, 7);
            assert_eq!(b, 7);
        }
        _ => panic!("requests were expected"),
    }
}

#[test]
fn own_request_is_passed_over() {
    let mut sd = ServiceDiscovery::new(Token(0), 65530, 11);
    sd.set_listen(true);
    let from = v4(10, 0, 0, 2, 65530);
    let action = sd.read(ReadEvent::Message { from, msg: DiscoveryMsg::Request { guid: 11 } });
    assert_eq!(action, ReadAction::Idle);
    assert_eq!(sd.pending_reply(), None);
}

#[test]
fn request_is_passed_over_while_not_listening() {
    let mut sd = ServiceDiscovery::new(Token(0), 65530, 11);
    let from = v4(10, 0, 0, 2, 65530);
    let action = sd.read(ReadEvent::Message { from, msg: DiscoveryMsg::Request { guid: 12 } });
    assert_eq!(action, ReadAction::Idle);
    assert_eq!(sd.pending_reply(), None);
    assert_eq!(sd.interest(), EventSet::listening());
}

#[test]
fn requests_are_answered_first_come_first() {
    let mut sd = ServiceDiscovery::new(Token(0), 65530, 1);
    sd.set_listen(true);
    let a = v4(10, 0, 0, 2, 1000);
    let b = v4(10, 0, 0, 3, 1000);
    assert_eq!(
        sd.read(ReadEvent::Message { from: a, msg: DiscoveryMsg::Request { guid: 2 } }),
        ReadAction::Reply
    );
    assert_eq!(
        sd.read(ReadEvent::Message { from: b, msg: DiscoveryMsg::Request { guid: 3 } }),
        ReadAction::Reply
    );
    assert_eq!(sd.interest(), EventSet::interest(true));
    assert_eq!(sd.pending_reply(), Some(a));
    assert_eq!(
        sd.write(SendOutcome::Sent),
        WriteAction::Reregister(EventSet { readable: true, writable: true, error: true, hup: true })
    );
    assert_eq!(sd.pending_reply(), Some(b));
    assert_eq!(sd.write(SendOutcome::Sent), WriteAction::Reregister(EventSet::listening()));
    assert_eq!(sd.pending_reply(), None);
}

#[test]
fn unsent_reply_stays_at_the_head() {
    for outcome in [SendOutcome::NotSent, SendOutcome::Interrupted, SendOutcome::WouldBlock] {
        let mut sd = ServiceDiscovery::new(Token(0), 65530, 1);
        sd.set_listen(true);
        let a = v4(10, 0, 0, 2, 1000);
        let b = v4(10, 0, 0, 3, 1000);
        let _ = sd.read(ReadEvent::Message { from: a, msg: DiscoveryMsg::Request { guid: 2 } });
        let _ = sd.read(ReadEvent::Message { from: b, msg: DiscoveryMsg::Request { guid: 3 } });
        assert_eq!(sd.write_impl(outcome), Ok(EventSet::interest(true)));
        assert_eq!(sd.pending_reply(), Some(a));
    }
}

#[test]
fn failed_send_is_an_error() {
    let mut sd = ServiceDiscovery::new(Token(0), 65530, 1);
    sd.set_listen(true);
    let a = v4(10, 0, 0, 2, 1000);
    let _ = sd.read(ReadEvent::Message { from: a, msg: DiscoveryMsg::Request { guid: 2 } });
    assert_eq!(sd.write_impl(SendOutcome::Failed), Err(ServiceDiscoveryError::Io));
    assert_eq!(sd.pending_reply(), None);

    let mut sd = ServiceDiscovery::new(Token(0), 65530, 1);
    sd.set_listen(true);
    let _ = sd.read(ReadEvent::Message { from: a, msg: DiscoveryMsg::Request { guid: 2 } });
    assert_eq!(sd.write(SendOutcome::Failed), WriteAction::Terminate);
}

#[test]
fn unencodable_response_is_an_error() {
    let mut sd = ServiceDiscovery::new(Token(0), 65530, 1);
    assert_eq!(sd.write_impl(SendOutcome::Unencodable), Err(ServiceDiscoveryError::Serialisation));
    sd.set_listen(true);
    let a = v4(10, 0, 0, 2, 1000);
    let _ = sd.read(ReadEvent::Message { from: a, msg: DiscoveryMsg::Request { guid: 2 } });
    assert_eq!(sd.write(SendOutcome::Unencodable), WriteAction::Terminate);
    assert_eq!(sd.pending_reply(), Some(a));
}

#[test]
fn write_with_nothing_pending_changes_nothing() {
    let mut sd = ServiceDiscovery::new(Token(0), 65530, 1);
    assert_eq!(sd.write_impl(SendOutcome::Failed), Ok(EventSet::listening()));
    assert_eq!(sd.write_impl(SendOutcome::Sent), Ok(EventSet::listening()));
    assert_eq!(sd.pending_reply(), None);
}

#[test]
fn read_conditions() {
    let mut sd = ServiceDiscovery::new(Token(0), 65530, 1);
    sd.set_listen(true);
    assert_eq!(sd.read(ReadEvent::NotReady), ReadAction::Idle);
    assert_eq!(sd.read(ReadEvent::Interrupted), ReadAction::Idle);
    assert_eq!(sd.read(ReadEvent::Undecodable), ReadAction::Idle);
    assert_eq!(sd.read(ReadEvent::Failed), ReadAction::Terminate);
    assert_eq!(sd.pending_reply(), None);
}

#[test]
fn response_leaves_restricted_mappings_out() {
    let a = v4(1, 2, 3, 4, 5);
    let b = v4(6, 7, 8, 9, 10);
    let c = SocketAddr::new(IpAddr::V6(1), 11);
    let listeners = vec![
        MappedAddr::new(a, false),
        MappedAddr::new(b, true),
        MappedAddr::new(c, false),
        MappedAddr::new(b, true),
    ];
    match ServiceDiscovery::response(&listeners) {
        DiscoveryMsg::Response(listed) => assert_eq!(listed, vec![a, c]),
        DiscoveryMsg::Request { .. } => panic!("a response was expected"),
    }
    match ServiceDiscovery::response(&Vec::new()) {
        DiscoveryMsg::Response(listed) => assert!(listed.is_empty()),
        DiscoveryMsg::Request { .. } => panic!("a response was expected"),
    }
}

#[test]
fn observers_that_are_gone_are_dropped() {
    let mut sd = ServiceDiscovery::new(Token(0), 65530, 1);
    let (tx_a, rx_a) = mpsc::channel();
    let (tx_b, rx_b) = mpsc::channel();
    let (tx_c, rx_c) = mpsc::channel();
    sd.register_observer(tx_a);
    sd.register_observer(tx_b);
    sd.register_observer(tx_c);
    assert_eq!(sd.observer_count(), 3);
    drop(rx_b);
    let listed = vec![v4(1, 2, 3, 4, 5)];
    assert_eq!(sd.notify(&listed), vec![true, false, true]);
    assert_eq!(sd.observer_count(), 2);
    assert_eq!(rx_a.recv().unwrap(), listed);
    assert_eq!(rx_c.recv().unwrap(), listed);

    drop(rx_a);
    let again = vec![v4(9, 9, 9, 9, 9)];
    let from = v4(10, 0, 0, 1, 1);
    let action = sd.read(ReadEvent::Message { from, msg: DiscoveryMsg::Response(again.clone()) });
    assert_eq!(action, ReadAction::Idle);
    assert_eq!(sd.observer_count(), 1);
    assert_eq!(rx_c.recv().unwrap(), again);
}

#[test]
fn retain_accepted_keeps_order() {
    assert_eq!(
        retain_accepted(vec![10, 20, 30, 40], &vec![true, false, true, true]),
        vec![10, 30, 40]
    );
    assert_eq!(retain_accepted(vec![10, 20, 30], &vec![true]), vec![10]);
    assert_eq!(retain_accepted(vec![10], &vec![false, true, true]), Vec::<i32>::new());
    assert_eq!(retain_accepted(Vec::<i32>::new(), &vec![]), Vec::<i32>::new());
}

#[test]
fn ready_sorts_out_the_report() {
    let sd = ServiceDiscovery::new(Token(0), 65530, 1);
    let set = |readable, writable, error, hup| EventSet { readable, writable, error, hup };
    assert_eq!(sd.ready(set(true, true, true, false)), ReadyAction::Terminate);
    assert_eq!(sd.ready(set(true, false, false, true)), ReadyAction::Terminate);
    assert_eq!(
        sd.ready(set(true, false, false, false)),
        ReadyAction::Proceed { read: true, write: false }
    );
    assert_eq!(
        sd.ready(set(false, true, false, false)),
        ReadyAction::Proceed { read: false, write: true }
    );
    assert_eq!(
        sd.ready(set(true, true, false, false)),
        ReadyAction::Proceed { read: true, write: true }
    );
}

#[test]
fn terminate_removes_token_and_state() {
    let mut core: Core<State> = Core::new();
    let token = ServiceDiscovery::start_with_guid(&mut core, Context(5), 9999, 1).unwrap();
    let other = ServiceDiscovery::start_with_guid(&mut core, Context(6), 9998, 2).unwrap();
    let probe = ServiceDiscovery::new(token, 9999, 1);
    probe.terminate(&mut core);
    assert_eq!(core.get_context(token), None);
    assert!(core.get_state(Context(5)).is_none());
    assert_eq!(core.get_context(other), Some(Context(6)));
    assert!(core.get_state(Context(6)).is_some());
}

#[test]
fn port_search_moves_up_and_ends_at_the_top() {
    assert_eq!(get_socket(9999, BindOutcome::Bound), BindStep::Done);
    assert_eq!(get_socket(9999, BindOutcome::Refused), BindStep::Retry(10000));
    assert_eq!(get_socket(65534, BindOutcome::Refused), BindStep::Retry(65535));
    assert_eq!(
        get_socket(65535, BindOutcome::Refused),
        BindStep::Failed(ServiceDiscoveryError::Io)
    );
    assert_eq!(get_socket(65535, BindOutcome::Bound), BindStep::Done);
    assert_eq!(
        get_socket(9999, BindOutcome::NoSocket),
        BindStep::Failed(ServiceDiscoveryError::Io)
    );

    // Ports 65530..=65532 are taken: the search from 65530 ends on 65533.
    let mut port = 65530u16;
    let mut tried = Vec::new();
    let bound = loop {
        tried.push(port);
        let outcome = if port <= 65532 { BindOutcome::Refused } else { BindOutcome::Bound };
        match get_socket(port, outcome) {
            BindStep::Done => break Some(port),
            BindStep::Retry(next) => port = next,
            BindStep::Failed(_) => break None,
        }
    };
    assert_eq!(bound, Some(65533));
    assert_eq!(tried, vec![65530, 65531, 65532, 65533]);

    // Every port is taken: the search ends with an error after 65535.
    let mut port = 65530u16;
    let mut tries = 0;
    let bound = loop {
        tries += 1;
        match get_socket(port, BindOutcome::Refused) {
            BindStep::Done => break Some(port),
            BindStep::Retry(next) => port = next,
            BindStep::Failed(e) => {
                assert_eq!(e, ServiceDiscoveryError::Io);
                break None;
            }
        }
    };
    assert_eq!(bound, None);
    assert_eq!(tries, 6);
}
