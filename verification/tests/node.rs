use mineshaft::addr::{IpAddr, SocketAddr};
use mineshaft::io_error::IoError;
use mineshaft::lan::network::Platform;
use mineshaft::node::client::{
    detect_game_state, game_endpoint, node_discovery_config, resolve_server_addr, GameState,
    Injection, NodeClient, GAME_PORT, MAX_JOIN_CONNS,
};
use mineshaft::node::config::{DiscoveryConfig, RelayConfig, ServerAdvertisement};
use mineshaft::node::discovery::{AdvertisedServer, DiscoveryService};
use mineshaft::node::error::CoreError;
use mineshaft::node::net::{
    frame_len, read_message, write_message, ClientMessage, ServerMessage, MAX_FRAME_BYTES,
};
use mineshaft::node::relay::{RelayCommand, RelayService};
use mineshaft::node::rendezvous::{Delivery, Registry, MAX_SESSIONS};
use mineshaft::node::session::{Addr, SessionRegistry};
use mineshaft::time::{Duration, Instant};

fn local(port: u16) -> SocketAddr {
    SocketAddr::new(IpAddr::v4(127, 0, 0, 1), port)
}

fn at(secs: u128) -> Instant {
    Instant { nanos: secs * 1_000_000_000 }
}

fn named(name: &str) -> ServerAdvertisement {
    ServerAdvertisement { server_name: name.to_string(), ..ServerAdvertisement::default() }
}

fn server(sender_id: u64, name: &str) -> AdvertisedServer {
    AdvertisedServer { sender_id, data: named(name) }
}

#[test]
fn advertisement_defaults() {
    let ad = ServerAdvertisement::default();
    assert_eq!(ad.server_name, "mineshaft");
    assert_eq!(ad.level_name, "mineshaft world");
    assert_eq!((ad.game_type, ad.player_count, ad.max_player_count), (0, 1, 8));
    assert!(!ad.editor_world && !ad.hardcore && ad.flag_a && ad.flag_b);
    assert_eq!(ad.session_id, "0000000000000000");
    assert_eq!((ad.transport_layer, ad.connection_type), (2, 4));
    assert_eq!(ad, ad.clone());
    assert_ne!(ad, named("other"));
}

#[test]
fn node_config_defaults() {
    let config = DiscoveryConfig::default();
    assert_eq!(config.heartbeat_interval, Duration::from_millis(500));
    assert_eq!(config.local_targets[0], SocketAddr::new(IpAddr::V6(1), 7551));
    assert_eq!(config.local_targets[1], local(7551));
    assert_eq!(config.local_targets.len(), 2);
    assert_eq!(config.bind_addr, SocketAddr::new(IpAddr::v4(0, 0, 0, 0), 0));
    assert_eq!(RelayConfig::default().max_advertised_hosts, 64);
}

#[test]
fn copies_hold_what_was_copied() {
    let config = DiscoveryConfig::default();
    assert_eq!(config.clone().local_targets, config.local_targets);
    let message = ClientMessage::RegisterHost(server(5, "a"));
    match message.clone() {
        ClientMessage::RegisterHost(copy) => {
            assert_eq!((copy.sender_id, copy.data.server_name.as_str()), (5, "a"));
        }
        _ => panic!("a registration was copied"),
    }
    let message = ServerMessage::HostList(vec![server(5, "a"), server(6, "b")]);
    match message.clone() {
        ServerMessage::HostList(copy) => {
            let ids: Vec<u64> = copy.iter().map(|s| s.sender_id).collect();
            assert_eq!(ids, [5, 6]);
        }
        _ => panic!("a list was copied"),
    }
}

#[test]
fn frame_has_its_bytes() {
    assert_eq!(write_message(b"abc"), vec![3, 0, 0, 0, b'a', b'b', b'c']);
    assert_eq!(write_message(b""), vec![0, 0, 0, 0]);
    let long = write_message(&vec![7; 0x0102]);
    assert_eq!(&long[..4], &[2, 1, 0, 0]);
}

#[test]
fn frames_are_read_back_in_order() {
    let mut stream = write_message(b"first");
    stream.extend(write_message(b""));
    stream.extend(write_message(b"third"));
    let (first, rest) = read_message(&stream).unwrap().unwrap();
    assert_eq!(first, b"first");
    let (second, rest) = read_message(rest).unwrap().unwrap();
    assert!(second.is_empty());
    let (third, rest) = read_message(rest).unwrap().unwrap();
    assert_eq!(third, b"third");
    assert!(read_message(rest).unwrap().is_none());
}

#[test]
fn frame_errors() {
    assert!(read_message(&[1, 0, 0]).unwrap().is_none());
    let cut = read_message(&[5, 0, 0, 0, 1, 2]).unwrap_err();
    assert_eq!(cut, CoreError::Io(IoError::UnexpectedEof("early eof")));
    assert_eq!(cut.display(), "io error: early eof");
    let large = frame_len([1, 0, 8, 0]).unwrap_err();
    assert_eq!(large, CoreError::FrameTooLarge(MAX_FRAME_BYTES + 1));
    assert_eq!(large.display(), "frame too large: 524289 bytes");
    assert_eq!(frame_len([0, 0, 8, 0]), Ok(512 * 1024));
    let oversized = write_message(&vec![0; MAX_FRAME_BYTES + 1]);
    assert_eq!(
        read_message(&oversized).unwrap_err(),
        CoreError::FrameTooLarge(MAX_FRAME_BYTES + 1)
    );
    let largest = vec![9; MAX_FRAME_BYTES];
    let frame = write_message(&largest);
    assert_eq!(read_message(&frame).unwrap().unwrap().0, &largest[..]);
}

#[test]
fn core_errors_have_words() {
    let s = || "x".to_string();
    assert_eq!(CoreError::Nethernet(s()).display(), "nethernet error: x");
    assert_eq!(CoreError::Platform(s()).display(), "platform error: x");
    assert_eq!(CoreError::InvalidState("x").display(), "invalid state: x");
    assert_eq!(CoreError::NotFound(s()).display(), "not found: x");
    assert_eq!(CoreError::Config(s()).display(), "config error: x");
    assert_eq!(CoreError::Other(s()).display(), "x");
}

fn encode(s: &AdvertisedServer) -> Option<Vec<u8>> {
    if s.data.server_name == "bad" {
        None
    } else {
        Some(format!("{}:{}", s.sender_id, s.data.server_name).into_bytes())
    }
}

fn advertised(service: &DiscoveryService) -> Vec<(u64, String)> {
    let mut list: Vec<(u64, String)> = service
        .advertised()
        .into_iter()
        .map(|s| (s.sender_id, s.data.server_name))
        .collect();
    list.sort();
    list
}

#[test]
fn servers_are_advertised_and_withdrawn() {
    let mut service = DiscoveryService::new(DiscoveryConfig::default());
    service.advertise(1, named("one"), Some(vec![1]));
    service.advertise(2, named("two"), None);
    assert_eq!(advertised(&service), vec![(1, "one".to_string())]);
    service.update_host(1, named("uno"), Some(vec![2]));
    assert_eq!(advertised(&service), vec![(1, "uno".to_string())]);
    service.update_host(1, named("eins"), None);
    assert_eq!(advertised(&service), vec![(1, "uno".to_string())]);
    assert!(service.is_unchanged(&server(1, "uno")));
    assert!(!service.is_unchanged(&server(1, "eins")));
    service.unadvertise(1);
    assert!(advertised(&service).is_empty());
    assert_eq!(service.config().local_targets.len(), 2);
}

#[test]
fn replacement_keeps_listed_servers_only() {
    let mut service = DiscoveryService::new(DiscoveryConfig::default());
    service.replace_all(vec![server(1, "a"), server(2, "b")], encode);
    assert_eq!(advertised(&service), vec![(1, "a".to_string()), (2, "b".to_string())]);
    // An entry that cannot be encoded stays as it was, or stays out.
    service.replace_all(vec![server(2, "bad"), server(3, "bad"), server(4, "d")], encode);
    assert_eq!(advertised(&service), vec![(2, "b".to_string()), (4, "d".to_string())]);
    service.replace_all(vec![], encode);
    assert!(advertised(&service).is_empty());
}

#[test]
fn unchanged_server_is_not_encoded_again() {
    let mut service = DiscoveryService::new(DiscoveryConfig::default());
    service.replace_all(vec![server(1, "a"), server(2, "b")], encode);
    let count = std::cell::Cell::new(0);
    service.replace_all(vec![server(1, "a"), server(2, "c"), server(2, "c")], |s| {
        count.set(count.get() + 1);
        encode(s)
    });
    assert_eq!(count.get(), 1);
    assert_eq!(advertised(&service), vec![(1, "a".to_string()), (2, "c".to_string())]);
    service.refresh(server(1, "a"), Some(vec![0]));
    let sent = service.broadcast_once();
    assert!(sent.iter().any(|d| d.bytes == b"1:a"));
    service.refresh(server(1, "z"), Some(vec![0]));
    assert!(service.broadcast_once().iter().any(|d| d.bytes == [0]));
}

#[test]
fn responses_are_of_what_is_advertised() {
    let mut service = DiscoveryService::new(DiscoveryConfig {
        local_targets: vec![local(1)],
        ..DiscoveryConfig::default()
    });
    service.advertise(1, named("a"), encode(&server(1, "a")));
    service.advertise(2, named("b"), encode(&server(2, "b")));
    service.replace_all(vec![server(1, "a"), server(2, "c"), server(3, "d")], encode);
    service.unadvertise(3);
    let mut sent: Vec<Vec<u8>> = service.broadcast_once().into_iter().map(|d| d.bytes).collect();
    sent.sort();
    assert_eq!(sent, [b"1:a".to_vec(), b"2:c".to_vec()]);
    assert_eq!(advertised(&service), vec![(1, "a".to_string()), (2, "c".to_string())]);
}

#[test]
fn heartbeat_reaches_every_target() {
    let mut service = DiscoveryService::new(DiscoveryConfig {
        local_targets: vec![local(1), local(2)],
        ..DiscoveryConfig::default()
    });
    assert!(service.broadcast_once().is_empty());
    service.advertise(1, named("one"), Some(vec![1]));
    service.advertise(2, named("two"), Some(vec![2]));
    let mut sent: Vec<(u16, u8)> = service
        .broadcast_once()
        .iter()
        .map(|d| (if d.to == local(1) { 1 } else { 2 }, d.bytes[0]))
        .collect();
    sent.sort();
    assert_eq!(sent, vec![(1, 1), (1, 2), (2, 1), (2, 2)]);
}

#[test]
fn heartbeat_starts_once_and_stops_for_good() {
    let mut service = DiscoveryService::new(DiscoveryConfig::default());
    assert!(service.start());
    assert!(!service.start());
    assert!(service.heartbeat_step().is_some());
    assert!(service.stop());
    assert!(!service.stop());
    assert!(service.heartbeat_step().is_none());
    assert!(service.start());
    assert!(service.heartbeat_step().is_none());
}

#[test]
fn full_registry_drives_out_one_host() {
    let mut relay = RelayService::new(RelayConfig { max_advertised_hosts: 2 });
    relay.register_host(server(1, "a"));
    relay.register_host(server(2, "b"));
    relay.register_host(server(2, "b2"));
    assert_eq!(relay.host_list().len(), 2);
    assert_eq!(relay.host_by_sender(2).unwrap().data.server_name, "b2");
    relay.register_host(server(3, "c"));
    assert_eq!(relay.host_list().len(), 2);
    assert!(relay.host_by_sender(3).is_some());
    assert!(relay.host_by_sender(1).is_some() != relay.host_by_sender(2).is_some());
    relay.register_evicting(server(4, "d"), Some(3));
    assert!(relay.host_by_sender(3).is_none());
    assert!(relay.host_by_sender(4).is_some());
    let mut none = RelayService::new(RelayConfig { max_advertised_hosts: 0 });
    none.register_host(server(1, "a"));
    none.register_host(server(2, "b"));
    assert_eq!(none.host_list().len(), 1);
    assert!(none.host_by_sender(2).is_some());
}

#[test]
fn commands_wait_until_they_are_pumped() {
    let mut relay = RelayService::new(RelayConfig::default());
    assert_eq!(relay.submit(RelayCommand::RegisterHost(server(1, "a"))), Ok(()));
    assert_eq!(relay.submit(RelayCommand::ListHosts), Ok(()));
    let joiner_addr = Addr { network_id: "n".to_string(), connection_id: 3 };
    let bridge = RelayCommand::BridgeToHost { advertised_sender_id: 1, joiner_addr };
    assert_eq!(relay.submit(bridge), Ok(()));
    assert!(relay.host_by_sender(1).is_none());
    assert_eq!(relay.pump_commands(), 3);
    assert!(relay.host_by_sender(1).is_some());
    assert_eq!(relay.pump_commands(), 0);
}

#[test]
fn sessions_are_kept_by_network_and_connection() {
    let mut registry: SessionRegistry<&str> = SessionRegistry::default();
    assert_eq!(registry.len(), 0);
    registry.upsert("n".to_string(), 1, "one");
    registry.upsert("n".to_string(), 2, "two");
    registry.upsert("m".to_string(), 1, "three");
    registry.upsert("n".to_string(), 1, "uno");
    assert_eq!(registry.len(), 3);
    assert_eq!(registry.get("n", 1), Some(&"uno"));
    assert_eq!(registry.get("n", 3), None);
    registry.remove("n", 2);
    registry.remove("n", 2);
    assert_eq!(registry.len(), 2);
    let addr = |n: &str, c: u64| Addr { network_id: n.to_string(), connection_id: c };
    let addrs: Vec<(Addr, Addr)> = (0..registry.len())
        .map(|i| (addr("local", 1), addr(registry.handle(i), 2)))
        .collect();
    let list = SessionRegistry::<&str>::snapshot(&registry.keys(), &addrs);
    assert_eq!(list.len(), 2);
    for summary in &list {
        let summary = summary.clone();
        let handle = registry.get(&summary.network_id, summary.connection_id).unwrap();
        assert_eq!(summary.remote_addr.network_id, *handle);
        assert_eq!(summary.local_addr.connection_id, 1);
    }
}

fn only(mut sent: Vec<Delivery>) -> Delivery {
    assert_eq!(sent.len(), 1);
    sent.remove(0)
}

#[test]
fn rendezvous_lists_hosts() {
    let mut registry = Registry::new();
    let (host, joiner) = (local(1), local(2));
    registry.connect(host);
    registry.connect(joiner);
    assert!(registry.is_connected(host));
    let pong = only(registry.handle_message(host, ClientMessage::Ping));
    assert_eq!(pong.to, host);
    assert!(matches!(pong.message, ServerMessage::Pong));
    let ack = only(registry.handle_message(host, ClientMessage::RegisterHost(server(5, "a"))));
    assert!(matches!(ack.message, ServerMessage::Registered { sender_id: 5 }));

    // Only the host may change the record or withdraw it.
    assert!(registry.handle_message(joiner, ClientMessage::UpdateHost(server(5, "b"))).is_empty());
    assert!(registry
        .handle_message(joiner, ClientMessage::UnregisterHost { sender_id: 5 })
        .is_empty());
    let names = |registry: &mut Registry| {
        let list = only(registry.handle_message(joiner, ClientMessage::ListHosts));
        assert_eq!(list.to, joiner);
        match list.message {
            ServerMessage::HostList(hosts) => {
                hosts.into_iter().map(|h| h.data.server_name).collect::<Vec<String>>()
            }
            _ => panic!("a list is answered with a list"),
        }
    };
    assert_eq!(names(&mut registry), vec!["a".to_string()]);
    registry.handle_message(host, ClientMessage::UpdateHost(server(5, "c")));
    assert_eq!(names(&mut registry), vec!["c".to_string()]);
    registry.handle_message(host, ClientMessage::UnregisterHost { sender_id: 5 });
    assert!(names(&mut registry).is_empty());
}

#[test]
fn rendezvous_pairs_joiner_and_host() {
    let mut registry = Registry::new();
    let (host, joiner) = (local(1), local(2));
    registry.connect(host);
    registry.connect(joiner);
    let request = |target| ClientMessage::ConnectRequest {
        target_sender_id: target,
        joiner_network_id: 99,
    };
    let unknown = only(registry.handle_message(joiner, request(0xab)));
    assert_eq!(unknown.to, joiner);
    assert!(matches!(unknown.message, ServerMessage::Error(ref e) if e == "no such host: 0xab"));

    registry.handle_message(host, ClientMessage::RegisterHost(server(5, "a")));
    for session in [1, 2] {
        let sent = registry.handle_message(joiner, request(5));
        assert_eq!(sent.len(), 2);
        assert_eq!((sent[0].to, sent[1].to), (host, joiner));
        match (&sent[0].message, &sent[1].message) {
            (
                ServerMessage::IncomingJoin { joiner_network_id, session_id },
                ServerMessage::JoinAccepted { session_id: accepted },
            ) => {
                assert_eq!((*joiner_network_id, *session_id, *accepted), (99, session, session))
            }
            _ => panic!("both sides are told"),
        }
    }
}

fn signal(target: u64, conn: u64, data: &str) -> ClientMessage {
    ClientMessage::Signal {
        target_sender_id: target,
        connection_id: conn,
        joiner_network_id: 77,
        data: data.to_string(),
    }
}

#[test]
fn rendezvous_signals_go_both_ways() {
    let mut registry = Registry::new();
    let (host, joiner) = (local(1), local(2));
    registry.connect(host);
    registry.connect(joiner);
    assert!(registry.handle_message(joiner, signal(5, 42, "offer")).is_empty());
    assert!(registry.handle_message(host, signal(0, 42, "answer")).is_empty());
    registry.handle_message(host, ClientMessage::RegisterHost(server(5, "a")));
    let offer = only(registry.handle_message(joiner, signal(5, 42, "offer")));
    assert_eq!(offer.to, host);
    match offer.message {
        ServerMessage::Signal { connection_id, joiner_network_id, data } => {
            assert_eq!((connection_id, joiner_network_id, data.as_str()), (42, 77, "offer"))
        }
        _ => panic!("a signal is forwarded"),
    }
    let answer = only(registry.handle_message(host, signal(0, 42, "answer")));
    assert_eq!(answer.to, joiner);

    // When the joiner leaves the session is gone; when the host leaves its world is.
    registry.disconnect(joiner);
    assert!(!registry.is_connected(joiner));
    assert!(registry.handle_message(host, signal(0, 42, "answer")).is_empty());
    registry.connect(joiner);
    registry.disconnect(host);
    assert!(registry.handle_message(joiner, signal(5, 42, "offer")).is_empty());
}

#[test]
fn rendezvous_remembers_only_so_many_sessions() {
    let mut registry = Registry::new();
    let (host, joiner) = (local(1), local(2));
    registry.connect(host);
    registry.connect(joiner);
    registry.handle_message(host, ClientMessage::RegisterHost(server(5, "a")));
    for conn in 0..MAX_SESSIONS as u64 + 1 {
        assert_eq!(registry.handle_message(joiner, signal(5, conn, "offer")).len(), 1);
    }
    assert_eq!(registry.handle_message(host, signal(0, 0, "answer")).len(), 1);
    // The one too many was forwarded, yet there is no way back.
    let extra = signal(0, MAX_SESSIONS as u64, "answer");
    assert!(registry.handle_message(host, extra).is_empty());
}

#[test]
fn game_states() {
    assert_eq!(detect_game_state(Some(true), true), GameState::Hosting);
    assert_eq!(detect_game_state(Some(true), false), GameState::Browsing);
    assert_eq!(detect_game_state(Some(false), true), GameState::Closed);
    assert_eq!(detect_game_state(None, true), GameState::Closed);
}

#[test]
fn game_is_reached_in_the_family_of_the_socket() {
    let loopback6 = SocketAddr::new(IpAddr::V6(1), 7551);
    let scoped = SocketAddr::V6 { ip: 9, port: 1, flowinfo: 2, scope_id: 3 };
    assert_eq!(GAME_PORT, 7551);
    assert_eq!(game_endpoint(Some(scoped)), loopback6);
    assert_eq!(game_endpoint(Some(SocketAddr::new(IpAddr::V6(0), 0))), loopback6);
    assert_eq!(game_endpoint(Some(SocketAddr::new(IpAddr::v4(0, 0, 0, 0), 5))), local(7551));
    assert_eq!(game_endpoint(None), local(7551));
}

#[test]
fn windows_node_stays_on_loopback() {
    let usual = DiscoveryConfig::default();
    for platform in [Platform::Linux, Platform::MacOS, Platform::Other] {
        assert_eq!(node_discovery_config(platform).bind_addr, usual.bind_addr);
    }
    let config = node_discovery_config(Platform::Windows);
    assert_eq!(config.bind_addr, local(0));
    assert_eq!(config.local_targets, usual.local_targets);
    assert_eq!(config.heartbeat_interval, usual.heartbeat_interval);
}

#[test]
fn server_address_is_resolved() {
    let resolve = |args: &[&str], env: Option<&str>| {
        let args: Vec<String> = args.iter().map(|s| s.to_string()).collect();
        resolve_server_addr(&args, env.map(|s| s.to_string()))
    };
    assert_eq!(resolve(&["node"], None), "127.0.0.1:25000");
    assert_eq!(resolve(&["node"], Some("")), "127.0.0.1:25000");
    assert_eq!(resolve(&["node"], Some("env:1")), "env:1");
    assert_eq!(resolve(&["node", "-v", "plain:1"], Some("env:1")), "plain:1");
    assert_eq!(resolve(&["node", "plain:1", "--server", "flag:1"], None), "flag:1");
    assert_eq!(resolve(&["node", "--server"], Some("env:1")), "env:1");
    assert_eq!(resolve(&[], None), "127.0.0.1:25000");
}

#[test]
fn hosted_world_is_told_once() {
    let mut client = NodeClient::new(0xabc, at(0));
    client.connected(at(1));
    let update = client.game_hosting(Some((7, named("w")))).unwrap();
    assert!(!update.clear_advertised);
    assert!(matches!(
        update.message,
        ClientMessage::RegisterHost(ref s) if s.sender_id == 0xabc && s.data == named("w")
    ));
    client.host_told(update.advertisement, true);
    assert!(client.game_hosting(Some((7, named("w")))).is_none());
    client.worlds_advertised(3);
    let update = client.game_hosting(Some((7, named("x")))).unwrap();
    assert!(update.clear_advertised);
    assert!(matches!(update.message, ClientMessage::UpdateHost(_)));
    // A lost connection means that the server has to be told anew.
    client.host_told(update.advertisement, false);
    let update = client.game_hosting(Some((7, named("x")))).unwrap();
    assert!(matches!(update.message, ClientMessage::RegisterHost(_)));
    client.host_told(update.advertisement, true);
    client.connected(at(2));
    assert!(client.game_hosting(Some((7, named("x")))).is_some());
}

#[test]
fn silent_host_gets_a_default_world() {
    let mut client = NodeClient::new(0xabc, at(0));
    let update = client.game_hosting(None).unwrap();
    assert_eq!(update.advertisement.session_id, "0000000000000abc");
    assert_eq!(update.advertisement.server_name, "mineshaft");
}

#[test]
fn leaving_the_world_withdraws_it() {
    let mut client = NodeClient::new(9, at(0));
    let idle = client.game_closed();
    assert!(idle.message.is_none() && !idle.clear_advertised);
    let update = client.game_hosting(Some((7, named("w")))).unwrap();
    client.host_told(update.advertisement, true);
    let idle = client.game_browsing();
    assert!(matches!(idle.message, Some(ClientMessage::UnregisterHost { sender_id: 9 })));
    assert!(!idle.clear_advertised);
    assert!(client.game_browsing().message.is_none());
    client.worlds_advertised(2);
    assert!(client.game_closed().clear_advertised);
    assert!(!client.game_closed().clear_advertised);
}

#[test]
fn signals_are_routed_between_game_and_server() {
    let mut client = NodeClient::new(9, at(0));
    // The node's own signals and those of strangers stay.
    assert_eq!(client.forward_signal(9, 1, Some(5)), None);
    assert_eq!(client.forward_signal(7, 1, None), None);
    assert_eq!(client.inject_signal(1, 50), None);
    // A joiner's offer is forwarded, and the answer finds its way back.
    assert_eq!(client.forward_signal(7, 1, Some(5)), Some(5));
    assert_eq!(client.inject_signal(1, 50), Some(Injection { sender: 5, recipient: 7 }));
    // A hosted game's answer is forwarded through the session.
    let update = client.game_hosting(Some((8, named("w")))).unwrap();
    client.host_told(update.advertisement, true);
    assert_eq!(client.forward_signal(8, 2, Some(5)), Some(0));
    assert_eq!(client.inject_signal(2, 50), Some(Injection { sender: 50, recipient: 8 }));
    client.game_browsing();
    assert_eq!(client.inject_signal(2, 50), None);
    assert_eq!(client.inject_signal(1, 50), Some(Injection { sender: 5, recipient: 7 }));
}

#[test]
fn join_connections_are_capped() {
    let mut client = NodeClient::new(9, at(0));
    for conn in 0..MAX_JOIN_CONNS as u64 + 5 {
        assert_eq!(client.forward_signal(7, conn, Some(5)), Some(5));
        assert!(client.inject_signal(conn, 0).is_some());
    }
    let known = (0..MAX_JOIN_CONNS as u64 + 5)
        .filter(|conn| client.inject_signal(*conn, 0).is_some())
        .count();
    assert_eq!(known, MAX_JOIN_CONNS);
}

#[test]
fn connection_liveness() {
    let mut client = NodeClient::new(9, at(0));
    client.connected(at(10));
    assert!(!client.is_dead(true, at(55)));
    assert!(client.is_dead(true, at(56)));
    assert!(client.is_dead(false, at(10)));
    client.heard(at(20));
    assert!(!client.is_dead(true, at(65)));
    assert!(!client.ping_due(true, at(24)));
    assert!(!client.ping_due(false, at(25)));
    assert!(client.ping_due(true, at(25)));
    assert!(!client.ping_due(true, at(26)));
}
