use mineshaft::addr::{IpAddr, SocketAddr};
use mineshaft::io_error::IoError;
use mineshaft::server::protocol::MineshaftHeader;
use mineshaft::server::relay::{
    DropReason, RelayAction, RelayConfig, RelayEvent, RelayServer, RelayStep,
};
use mineshaft::server::session::SessionRegistry;
use mineshaft::time::{Duration, Instant};

fn local(port: u16) -> SocketAddr {
    SocketAddr::new(IpAddr::v4(127, 0, 0, 1), port)
}

fn at(millis: u128) -> Instant {
    Instant { nanos: millis * 1_000_000 }
}

fn relay() -> RelayServer {
    RelayServer::bind(RelayConfig {
        bind_addr: local(0),
        session_timeout: Duration::from_secs(30),
        cleanup_interval: Duration::from_secs(10),
    })
    .unwrap()
}

fn dropped(action: RelayAction) -> DropReason {
    match action {
        RelayAction::Drop(reason) => reason,
        _ => panic!("something was sent"),
    }
}

#[test]
fn test_session_lifecycle() {
    let mut registry = SessionRegistry::new();
    let addr1 = local(10001);
    let addr2 = local(10002);

    assert!(registry.register_or_refresh(101, addr1, at(0)));
    assert!(!registry.register_or_refresh(101, addr1, at(1))); // already exists
    assert_eq!(registry.get_addr(101), Some(addr1));
    assert_eq!(registry.get_id_by_addr(&addr1), Some(101));

    // Endpoint migration
    registry.register_or_refresh(101, addr2, at(2));
    assert_eq!(registry.get_addr(101), Some(addr2));
    assert_eq!(registry.get_id_by_addr(&addr1), None);
    assert_eq!(registry.get_id_by_addr(&addr2), Some(101));

    // Pruning
    let pruned = registry.prune_stale(Duration::from_millis(0), at(3));
    assert_eq!(pruned, vec![101]);
    assert_eq!(registry.count(), 0);
}

#[test]
fn sessions_can_be_changed_from_outside() {
    let mut relay = relay();
    assert!(relay.registry_mut().register_or_refresh(1, local(7), at(0)));
    assert_eq!(relay.registry().get_addr(1), Some(local(7)));
    assert_eq!(relay.registry_mut().remove(1), Some(local(7)));
    assert_eq!(relay.registry().count(), 0);
}

#[test]
fn reused_endpoint_replaces_its_session() {
    let mut registry = SessionRegistry::new();
    assert!(registry.register_or_refresh(1, local(7), at(0)));
    assert!(registry.register_or_refresh(2, local(8), at(0)));
    assert!(!registry.register_or_refresh(2, local(7), at(1)));
    assert_eq!(registry.count(), 1);
    assert_eq!(registry.get_addr(1), None);
    assert_eq!(registry.get_id_by_addr(&local(7)), Some(2));
    assert_eq!(registry.get_id_by_addr(&local(8)), None);
    assert_eq!(registry.active_sessions(), vec![2]);
}

#[test]
fn removed_session_is_gone() {
    let mut registry = SessionRegistry::new();
    registry.register_or_refresh(1, local(7), at(0));
    assert_eq!(registry.remove(1), Some(local(7)));
    assert_eq!(registry.remove(1), None);
    assert_eq!(registry.get_id_by_addr(&local(7)), None);
    assert_eq!(registry.count(), 0);
}

#[test]
fn only_silent_sessions_are_pruned() {
    let mut registry = SessionRegistry::new();
    registry.register_or_refresh(1, local(1), at(0));
    registry.register_or_refresh(2, local(2), at(500));
    registry.register_or_refresh(3, local(3), at(100));
    let mut pruned = registry.prune_stale(Duration::from_millis(600), at(1100));
    pruned.sort();
    assert_eq!(pruned, vec![1, 3]);
    assert_eq!(registry.active_sessions(), vec![2]);
    assert_eq!(registry.get_id_by_addr(&local(1)), None);
    assert_eq!(registry.get_id_by_addr(&local(2)), Some(2));
}

#[test]
fn test_relay_routing_between_peers() {
    let mut relay = relay();
    let peer_a = local(40100);
    let peer_b = local(40200);

    // Register both peers with handshakes
    let hs_a = MineshaftHeader::handshake(100).to_bytes();
    let hs_b = MineshaftHeader::handshake(200).to_bytes();
    for (hello, peer) in [(hs_a, peer_a), (hs_b, peer_b)] {
        match relay.handle_datagram(&hello, peer, at(0)) {
            RelayAction::Reply { to, bytes } => {
                assert_eq!(to, peer);
                assert_eq!(bytes.len(), 8);
                assert_eq!(bytes, hello);
            }
            _ => panic!("a handshake is answered"),
        }
    }

    // Peer B sends packet to Peer A via Relay
    let pkt_to_a = MineshaftHeader::new(100, 200).encapsulate(b"Hello Host");
    match relay.handle_datagram(&pkt_to_a, peer_b, at(1)) {
        RelayAction::Forward { to, bytes } => {
            assert_eq!(to, peer_a);
            let (header, payload) = MineshaftHeader::decode(&bytes).unwrap();
            assert_eq!(header.target_session_id, 100);
            assert_eq!(header.sender_session_id, 200);
            assert_eq!(payload, b"Hello Host");
        }
        _ => panic!("the packet is forwarded"),
    }

    // Peer A replies back to Peer B
    let reply_to_b = MineshaftHeader::new(200, 100).encapsulate(b"Welcome Client");
    match relay.handle_datagram(&reply_to_b, peer_a, at(2)) {
        RelayAction::Forward { to, bytes } => {
            assert_eq!(to, peer_b);
            let (header, payload) = MineshaftHeader::decode(&bytes).unwrap();
            assert_eq!(header.target_session_id, 200);
            assert_eq!(header.sender_session_id, 100);
            assert_eq!(payload, b"Welcome Client");
        }
        _ => panic!("the reply is forwarded"),
    }
}

#[test]
fn relay_drops_what_it_may_not_forward() {
    let mut relay = relay();
    assert_eq!(
        dropped(relay.handle_datagram(&[0; 7], local(1), at(0))),
        DropReason::TooShort
    );
    let packet = MineshaftHeader::new(100, 200).encapsulate(b"x");
    assert_eq!(
        dropped(relay.handle_datagram(&packet, local(2), at(0))),
        DropReason::UnregisteredEndpoint
    );
    relay.handle_datagram(&MineshaftHeader::handshake(200).to_bytes(), local(2), at(0));
    assert_eq!(
        dropped(relay.handle_datagram(&packet, local(3), at(0))),
        DropReason::UnregisteredEndpoint
    );
    assert_eq!(
        dropped(relay.handle_datagram(&packet, local(2), at(0))),
        DropReason::TargetOffline
    );
    relay.handle_datagram(&MineshaftHeader::handshake(100).to_bytes(), local(1), at(0));
    relay.block_peer(100, 200);
    assert!(relay.is_blocked(100, 200));
    assert!(!relay.is_blocked(200, 100));
    assert_eq!(
        dropped(relay.handle_datagram(&packet, local(2), at(0))),
        DropReason::Blocked
    );
    relay.unblock_peer(100, 200);
    assert!(!relay.is_blocked(100, 200));
    assert!(matches!(
        relay.handle_datagram(&packet, local(2), at(0)),
        RelayAction::Forward { .. }
    ));
}

#[test]
fn data_does_not_take_over_a_session() {
    let mut relay = relay();
    relay.handle_datagram(&MineshaftHeader::handshake(1).to_bytes(), local(1), at(0));
    // A session's packet to itself with a payload is no handshake.
    let forged = MineshaftHeader::new(1, 1).encapsulate(b"x");
    assert_eq!(
        dropped(relay.handle_datagram(&forged, local(9), at(0))),
        DropReason::UnregisteredEndpoint
    );
    assert_eq!(relay.registry().get_addr(1), Some(local(1)));
    // A handshake migrates it.
    relay.handle_datagram(&MineshaftHeader::handshake(1).to_bytes(), local(9), at(0));
    assert_eq!(relay.registry().get_addr(1), Some(local(9)));
    assert_eq!(relay.registry().count(), 1);
}

#[test]
fn blocked_pairs_are_not_mixed_up() {
    let mut relay = relay();
    relay.block_peer(1, 2);
    relay.block_peer(u32::MAX, 0);
    assert!(relay.is_blocked(1, 2));
    assert!(relay.is_blocked(u32::MAX, 0));
    assert!(!relay.is_blocked(0, u32::MAX));
    assert!(!relay.is_blocked(2, 1));
}

#[test]
fn relay_intervals_must_not_be_zero() {
    for (timeout, interval) in [(0, 10), (10, 0)] {
        let refused = RelayServer::bind(RelayConfig {
            session_timeout: Duration::from_secs(timeout),
            cleanup_interval: Duration::from_secs(interval),
            ..RelayConfig::default()
        });
        match refused {
            Err(error) => {
                assert_eq!(
                    error,
                    IoError::InvalidInput("relay intervals must be greater than zero")
                );
                assert_eq!(error.display(), "relay intervals must be greater than zero");
            }
            Ok(_) => panic!("a zero interval was accepted"),
        }
    }
}

#[test]
fn relay_defaults() {
    let config = RelayConfig::default();
    assert_eq!(config.bind_addr, SocketAddr::new(IpAddr::v4(0, 0, 0, 0), 19999));
    assert_eq!(config.session_timeout, Duration::from_secs(35));
    assert_eq!(config.cleanup_interval, Duration::from_millis(10_000));
    assert_eq!(RelayServer::bind(config).unwrap().config(), config);
}

#[test]
fn relay_steps() {
    let mut relay = relay();
    let hello = MineshaftHeader::handshake(5).to_bytes();
    let event = RelayEvent::Datagram { bytes: &hello, from: local(5) };
    assert!(matches!(
        relay.step(event, at(0)),
        RelayStep::Act(RelayAction::Reply { .. })
    ));
    match relay.step(RelayEvent::CleanupTick, at(30_000)) {
        RelayStep::Pruned(ids) => assert!(ids.is_empty()),
        _ => panic!("a tick prunes"),
    }
    match relay.step(RelayEvent::CleanupTick, at(30_001)) {
        RelayStep::Pruned(ids) => assert_eq!(ids, vec![5]),
        _ => panic!("a tick prunes"),
    }
    assert!(matches!(relay.step(RelayEvent::ReceiveFailed, at(0)), RelayStep::Stop));
    assert!(matches!(relay.step(RelayEvent::Shutdown, at(0)), RelayStep::Stop));
}
