use crust::common::Token;
use crust::config::{is_listed, passes, Config};
use crust::event::PubConnectionInfo;
use crust::net::addr::{IpAddr, MappedAddr, SocketAddr};
use crust::net::peer::{
    connect_nonce, retains, same_name, survivor, validate, BootstrapAcceptError, Handshake,
    Handshaken, Peer, PeerKind, Uid,
};
use crust::net::socket::{Socket, SocketError, MAX_PAYLOAD_SIZE};

#[test]
fn connect_nonce_is_the_xor_of_both_uids() {
    assert_eq!(connect_nonce(Uid(0b1100), Uid(0b1010)), 0b0110);
    assert_eq!(connect_nonce(Uid(0b1010), Uid(0b1100)), 0b0110);
    assert_eq!(connect_nonce(Uid(u64::MAX), Uid(1)), u64::MAX - 1);
    assert_eq!(connect_nonce(Uid(5), Uid(5)), 0);
}

#[test]
fn both_ends_keep_or_close_the_same_socket() {
    let (a, b) = (Uid(0xdead_beef), Uid(0x1234_5678_9abc));
    let good = connect_nonce(a, b);
    assert!(retains(a, b, good));
    assert!(retains(b, a, good));
    for bad in [0, good + 1, good ^ 1, u64::MAX] {
        assert!(!retains(a, b, bad));
        assert!(!retains(b, a, bad));
    }
}

#[test]
fn lower_nonce_survives() {
    let old = Handshaken { token: Token(1), nonce: 50 };
    let new = Handshaken { token: Token(2), nonce: 49 };
    assert_eq!(survivor(old, new), new);
    assert_eq!(survivor(new, old), new);
    let higher = Handshaken { token: Token(3), nonce: 51 };
    assert_eq!(survivor(old, higher), old);
    assert_eq!(survivor(higher, old), old);
    let equal = Handshaken { token: Token(4), nonce: 50 };
    assert_eq!(survivor(old, equal), old);
    assert_eq!(survivor(equal, old), equal);
}

fn handshake(name: Option<&str>, uid: u64, kind: PeerKind) -> Handshake {
    Handshake {
        network_name: name.map(|n| n.to_string()),
        uid: Uid(uid),
        kind,
        pub_info: PubConnectionInfo { uid: Uid(uid), for_direct: vec![] },
        nonce: 1,
    }
}

#[test]
fn handshake_is_checked_in_order() {
    let mut config = Config::new();
    config.network_name = Some("main".to_string());
    config.whitelisted_node_ips = Some(vec![IpAddr::V4(0x0a00_0001)]);
    let us = Uid(1);
    let listed = IpAddr::V4(0x0a00_0001);
    let other = IpAddr::V4(0x0a00_0002);

    assert_eq!(validate(&config, us, &handshake(Some("main"), 2, PeerKind::Node), listed), Ok(()));
    assert_eq!(
        validate(&config, us, &handshake(Some("test"), 1, PeerKind::Node), other),
        Err(BootstrapAcceptError::InvalidNetworkName)
    );
    assert_eq!(
        validate(&config, us, &handshake(None, 2, PeerKind::Node), listed),
        Err(BootstrapAcceptError::InvalidNetworkName)
    );
    assert_eq!(
        validate(&config, us, &handshake(Some("main"), 1, PeerKind::Node), other),
        Err(BootstrapAcceptError::ConnectionFromOurself)
    );
    assert_eq!(
        validate(&config, us, &handshake(Some("main"), 2, PeerKind::Node), other),
        Err(BootstrapAcceptError::NotWhitelisted)
    );
    // No whitelist is set for clients: any address passes.
    assert_eq!(
        validate(&config, us, &handshake(Some("main"), 2, PeerKind::Bootstrap), other),
        Ok(())
    );
    config.whitelisted_client_ips = Some(vec![]);
    assert_eq!(
        validate(&config, us, &handshake(Some("main"), 2, PeerKind::Bootstrap), listed),
        Err(BootstrapAcceptError::NotWhitelisted)
    );
}

#[test]
fn names_and_whitelists() {
    assert!(same_name(&None, &None));
    assert!(same_name(&Some("a".to_string()), &Some("a".to_string())));
    assert!(!same_name(&Some("a".to_string()), &Some("b".to_string())));
    assert!(!same_name(&Some("a".to_string()), &None));
    assert!(!same_name(&None, &Some(String::new())));
    let list = vec![IpAddr::V4(1), IpAddr::V6(1)];
    assert!(is_listed(&list, IpAddr::V6(1)));
    assert!(!is_listed(&list, IpAddr::V4(2)));
    assert!(passes(&None, IpAddr::V4(2)));
    assert!(passes(&Some(list.clone()), IpAddr::V4(1)));
    assert!(!passes(&Some(list), IpAddr::V6(2)));
}

#[test]
fn peer_frames_what_it_sends_and_reads() {
    let mut a = Peer::new(Token(4), Uid(2), PeerKind::Node, 77, Socket::new(1024));
    assert_eq!(a.token(), Token(4));
    assert_eq!(a.uid(), Uid(2));
    assert_eq!(a.kind(), PeerKind::Node);
    assert_eq!(a.nonce(), 77);
    assert_eq!(a.send(b"hello".to_vec(), 1), Ok(true));
    assert_eq!(a.send(vec![0; MAX_PAYLOAD_SIZE + 1], 1), Err(SocketError::PayloadTooLarge));
    a.load();
    let wire = a.socket().pending().clone();
    assert_eq!(wire, vec![0, 0, 0, 5, 0x68, 0x65, 0x6c, 0x6c, 0x6f]);
    assert!(a.wrote(wire.len()));
    assert!(!a.wrote(0));

    let mut b = Peer::new(Token(9), Uid(1), PeerKind::Node, 77, Socket::new(1024));
    assert_eq!(b.readable(&wire[..6]), (vec![], false));
    assert_eq!(b.readable(&wire[6..]), (vec![vec![0x68, 0x65, 0x6c, 0x6c, 0x6f]], false));
    assert_eq!(b.readable(&[0xff, 0xff, 0xff, 0xff]), (vec![], true));
}

#[test]
fn mapped_addr_holds_what_it_was_made_of() {
    let addr = SocketAddr::new(IpAddr::V4(0x7f00_0001), 80);
    let mapped = MappedAddr::new(addr, true);
    assert_eq!(mapped.addr, addr);
    assert!(mapped.nat_restricted);
    assert_eq!(SocketAddr::broadcast(5), SocketAddr::new(IpAddr::V4(0xffff_ffff), 5));
    assert_eq!(SocketAddr::unspecified(5), SocketAddr::new(IpAddr::V4(0), 5));
}
