use mineshaft::addr::{IpAddr, SocketAddr};
use mineshaft::io_error::IoError;
use mineshaft::lan::access::AccessControl;
use mineshaft::lan::bridge::MineshaftBridge;
use mineshaft::lan::detector::{
    DetectorInput, DetectorStep, LocalServerEvent, ServerDetector, ServerDetectorConfig,
    PROBE_GUID,
};
use mineshaft::lan::identifier::BedrockIdentifier;
use mineshaft::lan::manager::{RemoteServer, ServerManager};
use mineshaft::lan::network::{Platform, PlatformNetwork};
use mineshaft::lan::packets::{
    build_unconnected_ping, build_unconnected_pong, parse_unconnected_ping, parse_unconnected_pong,
};
use mineshaft::lan::pong::{ListenerInput, PongEngine, PongEngineConfig, PongStep};
use mineshaft::lan::tunnel::{
    ForwarderInput, ForwarderStep, IgnoreReason, TunnelAction, TunnelConfig, TunnelEngine,
    TunnelEvent, TunnelInput, TunnelStep,
};
use mineshaft::server::protocol::MineshaftHeader;
use mineshaft::time::{Duration, Instant};

fn local(port: u16) -> SocketAddr {
    SocketAddr::new(IpAddr::v4(127, 0, 0, 1), port)
}

fn at(millis: u128) -> Instant {
    Instant { nanos: millis * 1_000_000 }
}

#[test]
fn test_access_control() {
    let mut ac = AccessControl::new();
    assert!(ac.is_allowed(123));

    ac.block_player(123);
    assert!(!ac.is_allowed(123));
    assert!(ac.is_blocked(123));

    ac.unblock_player(123);
    assert!(ac.is_allowed(123));

    ac.set_followers_only(true);
    assert!(!ac.is_allowed(456));

    ac.add_follower(456);
    assert!(ac.is_allowed(456));
}

#[test]
fn block_outranks_following() {
    let mut ac = AccessControl::new();
    ac.add_follower(1);
    ac.block_player(1);
    ac.set_followers_only(true);
    assert!(!ac.is_allowed(1));
    ac.unblock_player(1);
    assert!(ac.is_allowed(1));
    ac.remove_follower(1);
    assert!(!ac.is_allowed(1));
    ac.set_followers_only(false);
    assert!(ac.is_allowed(1));
    assert!(!ac.is_blocked(1));
}

#[test]
fn copied_rules_are_their_own() {
    let mut ac = AccessControl::default();
    ac.block_player(1);
    ac.add_follower(2);
    ac.set_followers_only(true);
    let copy = ac.clone();
    ac.unblock_player(1);
    ac.remove_follower(2);
    assert!(copy.is_blocked(1));
    assert!(copy.is_allowed(2));
    assert!(!copy.is_allowed(3));
    assert!(!ac.is_allowed(2));
}

#[test]
fn test_platform_detection() {
    let platform = Platform::current("linux");
    assert_eq!(platform, Platform::Linux);
    assert_eq!(platform.name(), "Linux");
}

#[test]
fn platforms_have_names() {
    assert_eq!(Platform::current("windows").name(), "Windows");
    assert_eq!(Platform::current("macos").name(), "macOS");
    assert_eq!(Platform::current("freebsd"), Platform::Other);
    assert_eq!(Platform::Other.name(), "Other");
}

#[test]
fn test_reflector_configuration() {
    let mut net = PlatformNetwork::new(Platform::Linux);
    assert_eq!(net.effective_bind_ip(), IpAddr::v4(127, 0, 0, 1));

    let reflector = IpAddr::v4(10, 10, 10, 10);
    net.set_reflector(reflector);
    assert_eq!(net.effective_bind_ip(), reflector);
}

#[test]
fn loopback_exemption_fails_only_where_it_cannot_be_asked_for() {
    let net = PlatformNetwork::new(Platform::Windows);
    assert_eq!(net.ensure_windows_loopback_exempt(None), Ok(()));
    assert_eq!(net.ensure_windows_loopback_exempt(Some(Ok(true))), Ok(()));
    assert_eq!(net.ensure_windows_loopback_exempt(Some(Ok(false))), Ok(()));
    let failure = IoError::Other("no such file".to_string());
    assert_eq!(
        net.ensure_windows_loopback_exempt(Some(Err(failure))),
        Err(IoError::Other("no such file".to_string()))
    );
}

#[test]
fn test_server_manager_add_and_remove() {
    let mut manager = ServerManager::new();
    let relay = local(19999);
    let ident = "MCPE;Ahmet's World;776;1.21.60;1;5;987654321;Sub;Survival;1;19132;19133;";

    assert!(manager.add_server(1001, 987654321, relay, ident, 40001).is_none());
    let server1 = manager.get_server(1001).unwrap();
    assert_eq!(server1.target_client_id, 1001);
    assert_ne!(server1.ephemeral_port, 0);

    let by_port = manager.get_by_port(server1.ephemeral_port);
    assert!(by_port.is_some());
    assert_eq!(by_port.unwrap().target_client_id, 1001);

    // Verify synthetic pong generation
    let pong = server1.build_synthetic_pong(555).unwrap();
    let (_, _, pong_str) = parse_unconnected_pong(&pong).unwrap();
    assert!(pong_str.contains(&format!(
        ";{};{};",
        server1.ephemeral_port, server1.ephemeral_port
    )));

    // Remove server
    let removed = manager.remove_server(1001);
    assert!(removed.is_some());
    assert_eq!(manager.count(), 0);
    assert!(manager.get_by_port(server1.ephemeral_port).is_none());
}

#[test]
fn unreadable_advertisement_gets_a_fallback() {
    let mut manager = ServerManager::new();
    manager.add_server(7, 99, local(1), "nonsense", 40007);
    let server = manager.get_server(7).unwrap();
    assert_eq!(server.raw_identifier, "nonsense");
    assert_eq!(
        server.parsed_identifier.serialize_to_string(),
        "MCPE;Friend World (7);776;1.21.60;1;8;99;;Survival;1;40007;40007;"
    );
    let pong = server.build_synthetic_pong(1).unwrap();
    let (_, guid, text) = parse_unconnected_pong(&pong).unwrap();
    assert_eq!(guid, 99);
    assert_eq!(BedrockIdentifier::parse(&text).unwrap(), server.parsed_identifier);
}

#[test]
fn replaced_server_is_handed_back() {
    let mut manager = ServerManager::new();
    manager.add_server(7, 1, local(1), "a", 40001);
    let old = manager.add_server(7, 2, local(2), "b", 40002).unwrap();
    assert_eq!(old.raw_identifier, "a");
    assert!(old.shut_down);
    assert_eq!(manager.count(), 1);
    assert!(manager.get_by_port(40001).is_none());
    let new = manager.get_by_port(40002).unwrap();
    assert_eq!(new.target_raknet_id, 2);
    assert!(!new.shut_down);
    assert!(manager.remove_server(8).is_none());
    assert!(manager.remove_server(7).unwrap().shut_down);
}

#[test]
fn each_world_has_a_port_of_its_own() {
    let mut manager = ServerManager::new();
    manager.add_server(1, 11, local(1), "a", 40001);
    manager.add_server(2, 22, local(1), "b", 40002);
    assert_eq!(manager.count(), 2);
    manager.add_server(1, 33, local(1), "c", 40003);
    assert_eq!(manager.count(), 2);
    assert!(manager.get_by_port(40001).is_none());
    assert_eq!(manager.get_by_port(40002).unwrap().target_raknet_id, 22);
    assert_eq!(manager.get_by_port(40003).unwrap().target_raknet_id, 33);
    assert_eq!(manager.get_server(1).unwrap().ephemeral_port, 40003);
    assert_eq!(manager.get_server(2).unwrap().ephemeral_port, 40002);
}

#[test]
fn servers_are_listed_by_client_id() {
    let mut manager = ServerManager::default();
    for id in [30, 10, 20] {
        manager.add_server(id, 1, local(1), "x", 40000 + id as u16);
    }
    let ids: Vec<u32> = manager.all_servers().iter().map(|s| s.target_client_id).collect();
    assert_eq!(ids, vec![10, 20, 30]);
    assert_eq!(manager.count(), 3);
}

#[test]
fn bind_address_follows_the_bind_ip() {
    let mut manager = ServerManager::new();
    assert_eq!(manager.get_bind_ip(), IpAddr::v4(127, 0, 0, 1));
    assert_eq!(manager.ephemeral_bind_addr(), local(0));
    manager.set_bind_ip(IpAddr::V6(1));
    assert_eq!(manager.get_bind_ip(), IpAddr::V6(1));
    assert_eq!(
        manager.ephemeral_bind_addr(),
        SocketAddr::V6 { ip: 1, port: 0, flowinfo: 0, scope_id: 0 }
    );
}

#[test]
fn client_is_noted_of_the_very_world_it_talks_to() {
    let mut manager = ServerManager::new();
    let tunnel = tunnel(100);
    let talk = || ForwarderInput::Datagram { bytes: b"x", from: local(50000) };
    manager.add_server(7, 1, local(1), "x", 40001);
    let mut former = manager.get_server(7).unwrap();

    // The world that takes its place has the same port, at another address.
    manager.set_bind_ip(IpAddr::v4(10, 10, 10, 10));
    manager.add_server(7, 1, local(1), "x", 40001);
    let mut current = manager.get_server(7).unwrap();
    assert_ne!(former.serial, current.serial);

    tunnel.client_forwarder_step(&mut manager, &mut former, talk());
    assert_eq!(former.last_client_addr, Some(local(50000)));
    assert_eq!(manager.get_server(7).unwrap().last_client_addr, None);
    tunnel.client_forwarder_step(&mut manager, &mut current, talk());
    assert_eq!(current.last_client_addr, Some(local(50000)));
    assert_eq!(manager.get_server(7).unwrap().last_client_addr, Some(local(50000)));

    manager.note_client(8, current.serial, local(50001));
    assert_eq!(manager.count(), 1);
    assert!(manager.get_server(8).is_none());
}

fn pong_engine(target: SocketAddr) -> PongEngine {
    PongEngine::new(PongEngineConfig {
        broadcast_targets: vec![target],
        listen_addr: None,
        bind_addr: local(0),
        burst_interval: Duration::from_millis(500),
    })
    .unwrap()
}

#[test]
fn test_pong_engine_burst() {
    let mut manager = ServerManager::new();
    let relay = local(19999);

    // Add 2 mock servers
    manager.add_server(
        1001,
        11111,
        relay,
        "MCPE;Ahmet's World;776;1.21.60;1;5;11111;Sub;Survival;1;19132;19133;",
        40001,
    );
    manager.add_server(
        1002,
        22222,
        relay,
        "MCPE;Mehmet's World;776;1.21.60;3;8;22222;Sub;Survival;1;19132;19133;",
        40002,
    );
    let s1 = manager.get_server(1001).unwrap();
    let s2 = manager.get_server(1002).unwrap();

    let mc_addr = local(1024);
    let engine = pong_engine(mc_addr);
    let sent = engine.send_pong_burst_to(&manager, Some(1), mc_addr);
    assert_eq!(sent.len(), 2);

    let mut received_ports = Vec::new();
    for datagram in &sent {
        assert_eq!(datagram.to, mc_addr);
        let (_, _, ident_str) = parse_unconnected_pong(&datagram.bytes).unwrap();
        let ident = BedrockIdentifier::parse(&ident_str).unwrap();
        received_ports.push(ident.port_ipv4);
    }

    assert!(received_ports.contains(&s1.ephemeral_port));
    assert!(received_ports.contains(&s2.ephemeral_port));
}

#[test]
fn burst_needs_a_clock_and_worlds() {
    let mut manager = ServerManager::new();
    let engine = pong_engine(local(1));
    assert!(engine.send_pong_burst_to(&manager, Some(1), local(1)).is_empty());
    manager.add_server(1, 1, local(1), "x", 40001);
    assert!(engine.send_pong_burst_to(&manager, None, local(1)).is_empty());
    assert_eq!(engine.send_pong_burst_to(&manager, Some(1), local(1)).len(), 1);
}

#[test]
fn oversized_world_is_left_out_of_the_burst() {
    let mut manager = ServerManager::new();
    let oversized = format!("MCPE;{};1;v;1;1;1;", "w".repeat(70_000));
    manager.add_server(1, 1, local(1), "a", 40001);
    manager.add_server(2, 2, local(1), &oversized, 40002);
    manager.add_server(3, 3, local(1), "c", 40003);
    let sent = pong_engine(local(1)).send_pong_burst_to(&manager, Some(9), local(1));
    let guids: Vec<u64> =
        sent.iter().map(|d| parse_unconnected_pong(&d.bytes).unwrap().1).collect();
    assert_eq!(guids, vec![1, 3]);
}

#[test]
fn every_target_gets_its_burst() {
    let mut manager = ServerManager::new();
    manager.add_server(1, 1, local(1), "a", 40001);
    manager.add_server(2, 2, local(1), "b", 40002);
    let engine = PongEngine::new(PongEngineConfig {
        broadcast_targets: vec![local(1), local(2), local(3)],
        ..PongEngineConfig::default()
    })
    .unwrap();
    let sent = engine.broadcast_burst(&manager, &vec![Some(5), None, Some(6)]);
    let seen: Vec<(SocketAddr, u64)> =
        sent.iter().map(|d| (d.to, parse_unconnected_pong(&d.bytes).unwrap().0)).collect();
    assert_eq!(seen, vec![(local(1), 5), (local(1), 5), (local(3), 6), (local(3), 6)]);
    match engine.step(&manager, false, &vec![None, None, Some(1)]) {
        PongStep::Send(out) => assert_eq!(out.len(), 2),
        PongStep::Stop => panic!("a tick sends"),
    }
    assert!(matches!(engine.step(&manager, true, &vec![None, None, None]), PongStep::Stop));
    assert_eq!(engine.config().broadcast_targets.len(), 3);
}

#[test]
fn ping_is_answered_where_it_came_from() {
    let mut manager = ServerManager::new();
    manager.add_server(1, 77, local(1), "a", 40001);
    let engine = pong_engine(local(1));
    let ping = build_unconnected_ping(3, 4).unwrap();
    let answer = |bytes: &[u8]| {
        let input = ListenerInput::Datagram { bytes, from: local(9) };
        match engine.listener_step(&manager, input, Some(8)) {
            PongStep::Send(out) => out,
            PongStep::Stop => panic!("a datagram does not end the listener"),
        }
    };
    let sent = answer(&ping);
    assert_eq!(sent.len(), 1);
    assert_eq!(sent[0].to, local(9));
    let (timestamp, guid, _) = parse_unconnected_pong(&sent[0].bytes).unwrap();
    assert_eq!((timestamp, guid), (8, 77));
    assert!(answer(&ping[..32]).is_empty());
    assert!(answer(&[]).is_empty());
    assert!(matches!(
        engine.listener_step(&manager, ListenerInput::ReceiveFailed, None),
        PongStep::Stop
    ));
    assert!(matches!(
        engine.listener_step(&manager, ListenerInput::Shutdown, None),
        PongStep::Stop
    ));
}

#[test]
fn pong_defaults() {
    let config = PongEngineConfig::default();
    assert_eq!(config.broadcast_targets, vec![local(19132)]);
    assert_eq!(config.listen_addr, Some(SocketAddr::new(IpAddr::v4(0, 0, 0, 0), 19132)));
    assert_eq!(config.bind_addr, SocketAddr::new(IpAddr::v4(0, 0, 0, 0), 0));
    assert_eq!(config.burst_interval, Duration::from_millis(1000));
    let copy = config.clone();
    assert_eq!(copy.broadcast_targets, config.broadcast_targets);
    assert_eq!(copy.listen_addr, config.listen_addr);
    let refused = PongEngine::new(PongEngineConfig {
        burst_interval: Duration::from_millis(0),
        ..PongEngineConfig::default()
    });
    match refused {
        Err(error) => {
            assert_eq!(error.display(), "pong burst interval must be greater than zero")
        }
        Ok(_) => panic!("a zero interval was accepted"),
    }
}

fn detector(target: SocketAddr) -> ServerDetector {
    ServerDetector::bind(ServerDetectorConfig {
        target_addr: target,
        bind_addr: local(0),
        probe_interval: Duration::from_millis(200),
        timeout: Duration::from_millis(800),
    })
    .unwrap()
}

fn answer_to(ping: &[u8], world: &str) -> Vec<u8> {
    let (timestamp, _) = parse_unconnected_ping(ping).unwrap();
    build_unconnected_pong(timestamp, 99999, world).unwrap()
}

#[test]
fn test_detector_probe_and_detection() {
    let server_addr = local(1024);
    let detector = detector(server_addr);

    let probe = detector.probe(1234);
    assert_eq!(probe.to, server_addr);
    let pong = answer_to(
        &probe.bytes,
        "MCPE;Test Detection World;776;1.21.60;2;8;99999;Sub;Survival;1;19132;19133;",
    );

    // Test probe_once
    let detected = detector.probe_once(1234, Some((&pong, server_addr)));
    assert!(detected.is_some());
    let ident = detected.unwrap();
    assert_eq!(ident.server_name, "Test Detection World");
    assert_eq!(ident.player_count, 2);
}

#[test]
fn probe_takes_only_its_own_answer() {
    let target = local(1);
    let detector = detector(target);
    let world = "MCPE;W;1;v;1;1;1;";
    let probe = detector.probe(5);
    assert_eq!(parse_unconnected_ping(&probe.bytes).unwrap(), (5, PROBE_GUID));
    let pong = answer_to(&probe.bytes, world);
    assert!(detector.probe_once(5, Some((&pong, target))).is_some());
    assert!(detector.probe_once(6, Some((&pong, target))).is_none());
    assert!(detector.probe_once(5, Some((&pong, local(2)))).is_none());
    assert!(detector.probe_once(5, Some((&pong[..20], target))).is_none());
    assert!(detector.probe_once(5, None).is_none());
    let unreadable = answer_to(&probe.bytes, "MCPE");
    assert!(detector.probe_once(5, Some((&unreadable, target))).is_none());
}

#[test]
fn detector_announces_start_update_and_stop() {
    let target = local(1);
    let mut detector = detector(target);
    let first = "MCPE;One;1;v;1;8;1;";
    let second = "MCPE;One;1;v;2;8;1;";

    // Without a probe nothing counts.
    let stray = build_unconnected_pong(10, 1, first).unwrap();
    assert!(detector.receive(&stray, target, at(0), true).is_none());

    let ping = match detector.step(DetectorInput::ProbeTick(Some(10)), at(0), true) {
        DetectorStep::Probe { timestamp, ping } => {
            assert_eq!(timestamp, 10);
            ping
        }
        _ => panic!("a tick probes"),
    };
    assert!(detector.probe_tried(10, true, at(0), true).is_none());
    let started = detector.receive(&answer_to(&ping.bytes, first), target, at(5), true).unwrap();
    let one = BedrockIdentifier::parse(first).unwrap();
    assert_eq!(started, LocalServerEvent::ServerStarted(one.clone()));
    assert_eq!(detector.current_server(), Some(one));

    // The same world again is no news; a change is.
    assert!(detector.receive(&answer_to(&ping.bytes, first), target, at(6), true).is_none());
    let updated = detector.receive(&answer_to(&ping.bytes, second), target, at(7), true).unwrap();
    let two = BedrockIdentifier::parse(second).unwrap();
    assert_eq!(updated, LocalServerEvent::ServerUpdated(two));

    // Silence for no longer than the timeout is no news either.
    assert!(detector.probe_tried(20, true, at(807), true).is_none());
    let stopped = detector.probe_tried(30, true, at(808), true).unwrap();
    assert_eq!(stopped, LocalServerEvent::ServerStopped);
    assert_eq!(detector.current_server(), None);

    // A late answer does not bring it back.
    let late = build_unconnected_pong(30, 1, first).unwrap();
    assert!(detector.receive(&late, target, at(809), true).is_none());
    assert_eq!(detector.current_server(), None);
}

#[test]
fn nobody_watching_means_nothing_shown() {
    let target = local(1);
    let mut detector = detector(target);
    detector.probe_tried(1, true, at(0), false);
    let pong = build_unconnected_pong(1, 1, "MCPE;W;1;v;1;1;1;").unwrap();
    assert!(detector.receive(&pong, target, at(0), false).is_some());
    assert_eq!(detector.current_server(), None);
    assert!(detector.receive(&pong, target, at(0), true).is_none());
    assert!(detector.current_server().is_some());
    assert!(detector.probe_tried(2, true, at(900), false).is_some());
    assert!(detector.current_server().is_some());
}

#[test]
fn detector_steps() {
    let target = local(1);
    let mut detector = detector(target);
    assert!(matches!(
        detector.step(DetectorInput::ProbeTick(None), at(0), true),
        DetectorStep::Wait
    ));
    assert!(matches!(
        detector.step(DetectorInput::ProbeTried { timestamp: 1, sent: true }, at(0), true),
        DetectorStep::Wait
    ));
    let pong = build_unconnected_pong(1, 1, "MCPE;W;1;v;1;1;1;").unwrap();
    let input = DetectorInput::Datagram { bytes: &pong, from: target };
    assert!(matches!(
        detector.step(input, at(0), true),
        DetectorStep::Announce(LocalServerEvent::ServerStarted(_))
    ));
    assert!(matches!(
        detector.step(DetectorInput::ReceiveFailed, at(0), true),
        DetectorStep::Wait
    ));
    assert!(matches!(
        detector.step(DetectorInput::ProbeTried { timestamp: 2, sent: false }, at(900), true),
        DetectorStep::Announce(LocalServerEvent::ServerStopped)
    ));
    assert!(matches!(detector.step(DetectorInput::Shutdown, at(0), true), DetectorStep::Stop));
}

#[test]
fn each_run_announces_the_world_again() {
    let target = local(1);
    let mut detector = detector(target);
    let pong = build_unconnected_pong(1, 1, "MCPE;W;1;v;1;1;1;").unwrap();
    for _ in 0..2 {
        detector.begin_run();
        assert!(detector.receive(&pong, target, at(0), true).is_none());
        detector.probe_tried(1, true, at(0), true);
        let event = detector.receive(&pong, target, at(0), true).unwrap();
        assert!(matches!(event, LocalServerEvent::ServerStarted(_)));
        assert!(detector.receive(&pong, target, at(1), true).is_none());
    }
    // What was shown stays until there is news.
    detector.begin_run();
    assert!(detector.current_server().is_some());
    assert!(detector.probe_tried(2, true, at(60_000), true).is_none());
}

#[test]
fn detector_defaults() {
    let config = ServerDetectorConfig::default();
    assert_eq!(config.target_addr, local(19132));
    assert_eq!(config.probe_interval, Duration::from_millis(1500));
    assert_eq!(config.timeout, Duration::from_secs(5));
    assert_eq!(ServerDetector::bind(config).unwrap().config(), config);
    let refused = ServerDetector::bind(ServerDetectorConfig {
        timeout: Duration::from_secs(0),
        ..ServerDetectorConfig::default()
    });
    match refused {
        Err(error) => {
            assert_eq!(error.display(), "detector intervals must be greater than zero")
        }
        Ok(_) => panic!("a zero interval was accepted"),
    }
}

fn tunnel(client_id: u32) -> TunnelEngine {
    TunnelEngine::bind(TunnelConfig {
        my_client_id: client_id,
        relay_addr: local(19999),
        local_minecraft_addr: local(19132),
        bind_addr: local(0),
        keepalive_interval: Duration::from_secs(60),
        session_timeout: Duration::from_secs(60),
    })
    .unwrap()
}

#[test]
fn test_tunnel_client_and_host_routing() {
    let mut manager = ServerManager::new();
    let access = AccessControl::new();
    let relay_addr = local(19999);
    let mut tunnel = tunnel(100);

    // Test handshake
    let handshake = tunnel.send_handshake();
    assert_eq!(handshake.to, relay_addr);
    assert_eq!(handshake.bytes.len(), 8);
    let (hs, _) = MineshaftHeader::decode(&handshake.bytes).unwrap();
    assert_eq!(hs.target_session_id, 100);
    assert_eq!(hs.sender_session_id, 100);

    // Add remote server (Host Client ID 200)
    manager.add_server(
        200,
        99999,
        relay_addr,
        "MCPE;Test;776;1.21.60;1;8;99999;Sub;Survival;1;19132;19133;",
        40200,
    );
    let mut remote = manager.get_server(200).unwrap();

    // Simulate local Minecraft client sending packet to ephemeral socket
    let mc_client = local(50000);
    let input = ForwarderInput::Datagram { bytes: b"Minecraft Packet Data", from: mc_client };
    let out = match tunnel.client_forwarder_step(&mut manager, &mut remote, input) {
        ForwarderStep::Send(out) => out,
        ForwarderStep::Stop => panic!("a datagram is forwarded"),
    };

    // Check that relay receives encapsulated packet: [ 200, 100 ] + payload
    assert_eq!(out.to, relay_addr);
    let (header, payload) = MineshaftHeader::decode(&out.bytes).unwrap();
    assert_eq!(header.target_session_id, 200);
    assert_eq!(header.sender_session_id, 100);
    assert_eq!(payload, b"Minecraft Packet Data");

    // Now simulate relay sending reply back: [ 100, 200 ] + "Server Reply"
    let reply_pkt = MineshaftHeader::new(100, 200).encapsulate(b"Server Reply");
    match tunnel.handle_relay_datagram(&manager, &access, &reply_pkt, at(0)) {
        TunnelAction::ToClient { server, to, payload } => {
            assert_eq!(server, 200);
            assert_eq!(to, mc_client);
            assert_eq!(payload, b"Server Reply");
        }
        _ => panic!("the reply goes to the client"),
    }
}

#[test]
fn host_side_takes_in_players() {
    let manager = ServerManager::new();
    let mut access = AccessControl::new();
    let mut tunnel = tunnel(100);
    let packet = MineshaftHeader::new(100, 300).encapsulate(b"join");

    match tunnel.handle_relay_datagram(&manager, &access, &packet, at(0)) {
        TunnelAction::Connect { event, peer, to, payload } => {
            assert_eq!(event, TunnelEvent::ClientConnecting(300));
            assert_eq!(peer, 300);
            assert_eq!(to, local(19132));
            assert_eq!(payload, b"join");
        }
        _ => panic!("a new player connects"),
    }
    // As long as no socket was bound the player stays new.
    assert!(matches!(
        tunnel.handle_relay_datagram(&manager, &access, &packet, at(1)),
        TunnelAction::Connect { .. }
    ));
    tunnel.open_host_session(300, at(2));
    match tunnel.handle_relay_datagram(&manager, &access, &packet, at(3)) {
        TunnelAction::ToHost { peer, payload, .. } => {
            assert_eq!(peer, 300);
            assert_eq!(payload, b"join");
        }
        _ => panic!("a known player is forwarded"),
    }
    let reply = tunnel.host_reply(300, b"welcome");
    assert_eq!(reply.to, local(19999));
    assert_eq!(reply.bytes, MineshaftHeader::new(300, 100).encapsulate(b"welcome"));
    let input = ForwarderInput::Datagram { bytes: b"welcome", from: local(19132) };
    match tunnel.host_forwarder_step(300, input) {
        ForwarderStep::Send(out) => assert_eq!(out.bytes, reply.bytes),
        ForwarderStep::Stop => panic!("a datagram is forwarded"),
    }
    assert!(matches!(
        tunnel.host_forwarder_step(300, ForwarderInput::Removed),
        ForwarderStep::Stop
    ));
    access.block_player(300);
    assert!(matches!(
        tunnel.handle_relay_datagram(&manager, &access, &packet, at(4)),
        TunnelAction::Ignore(IgnoreReason::Denied)
    ));
}

#[test]
fn blocked_world_is_silenced() {
    let mut manager = ServerManager::new();
    manager.add_server(5, 1, local(1), "x", 40005);
    let serial = manager.get_server(5).unwrap().serial;
    manager.note_client(5, serial, local(50000));
    let mut access = AccessControl::new();
    let mut tunnel = tunnel(7);
    let packet = MineshaftHeader::new(7, 5).encapsulate(b"x");
    let reaches_client = |action: TunnelAction| matches!(action, TunnelAction::ToClient { .. });

    // Those who are no followers still answer from the worlds they host; blocked ones do not.
    access.set_followers_only(true);
    assert!(reaches_client(tunnel.handle_relay_datagram(&manager, &access, &packet, at(0))));
    access.block_player(5);
    assert!(matches!(
        tunnel.handle_relay_datagram(&manager, &access, &packet, at(1)),
        TunnelAction::Ignore(IgnoreReason::Denied)
    ));
    // Nor does one become a player when the world is removed, or count as active.
    tunnel.open_host_session(5, at(0));
    manager.remove_server(5);
    assert!(matches!(
        tunnel.handle_relay_datagram(&manager, &access, &packet, at(60_000)),
        TunnelAction::Ignore(IgnoreReason::Denied)
    ));
    match tunnel.step(&manager, &access, TunnelInput::CleanupTick, at(60_001)) {
        TunnelStep::Announce(events) => assert_eq!(
            events,
            vec![TunnelEvent::ClientDisconnected(5), TunnelEvent::PlayersActive(vec![])]
        ),
        _ => panic!("a tick announces"),
    }
    manager.add_server(5, 1, local(1), "x", 40006);
    let serial = manager.get_server(5).unwrap().serial;
    manager.note_client(5, serial, local(50000));
    access.unblock_player(5);
    assert!(reaches_client(tunnel.handle_relay_datagram(&manager, &access, &packet, at(2))));
}

#[test]
fn tunnel_ignores_what_is_not_for_it() {
    let mut manager = ServerManager::new();
    manager.add_server(200, 1, local(1), "x", 40200);
    let access = AccessControl::new();
    let mut tunnel = tunnel(100);
    let mut reason = |data: &[u8]| {
        match tunnel.handle_relay_datagram(&manager, &access, data, at(0)) {
            TunnelAction::Ignore(reason) => reason,
            _ => panic!("it is ignored"),
        }
    };
    assert_eq!(reason(&[1, 2, 3]), IgnoreReason::Malformed);
    assert_eq!(
        reason(&MineshaftHeader::new(101, 200).encapsulate(b"x")),
        IgnoreReason::OtherTarget
    );
    assert_eq!(
        reason(&MineshaftHeader::handshake(100).to_bytes()),
        IgnoreReason::Keepalive
    );
    assert_eq!(
        reason(&MineshaftHeader::new(100, 200).encapsulate(b"x")),
        IgnoreReason::NoLocalClient
    );
}

#[test]
fn silent_players_are_dropped() {
    let manager = ServerManager::new();
    let access = AccessControl::new();
    let mut tunnel = tunnel(100);
    tunnel.open_host_session(1, at(0));
    tunnel.open_host_session(2, at(50_000));
    match tunnel.step(&manager, &access, TunnelInput::CleanupTick, at(60_000)) {
        TunnelStep::Announce(events) => {
            assert_eq!(events.len(), 1);
            assert!(matches!(&events[0], TunnelEvent::PlayersActive(ids) if ids.len() == 2));
        }
        _ => panic!("a tick announces"),
    }
    match tunnel.step(&manager, &access, TunnelInput::CleanupTick, at(60_001)) {
        TunnelStep::Announce(events) => assert_eq!(
            events,
            vec![TunnelEvent::ClientDisconnected(1), TunnelEvent::PlayersActive(vec![2])]
        ),
        _ => panic!("a tick announces"),
    }
    match tunnel.step(&manager, &access, TunnelInput::KeepaliveTick, at(0)) {
        TunnelStep::Send(out) => assert_eq!(out.bytes, [0, 0, 0, 100, 0, 0, 0, 100]),
        _ => panic!("a tick shakes hands"),
    }
    let packet = MineshaftHeader::new(100, 2).encapsulate(b"x");
    assert!(matches!(
        tunnel.step(&manager, &access, TunnelInput::RelayDatagram(&packet), at(0)),
        TunnelStep::Act(TunnelAction::ToHost { peer: 2, .. })
    ));
    assert!(matches!(
        tunnel.step(&manager, &access, TunnelInput::Shutdown, at(0)),
        TunnelStep::Stop
    ));
    assert!(matches!(
        tunnel.step(&manager, &access, TunnelInput::ReceiveFailed, at(0)),
        TunnelStep::Stop
    ));
}

#[test]
fn tunnel_defaults() {
    let config = TunnelConfig::default();
    assert_eq!(config.my_client_id, 0);
    assert_eq!(config.relay_addr, local(19999));
    assert_eq!(config.local_minecraft_addr, local(19132));
    assert_eq!(config.keepalive_interval, Duration::from_secs(25));
    assert_eq!(config.session_timeout, Duration::from_secs(30));
    assert_eq!(TunnelEngine::bind(config).unwrap().config(), config);
    let refused = TunnelEngine::bind(TunnelConfig {
        keepalive_interval: Duration::from_secs(0),
        ..TunnelConfig::default()
    });
    match refused {
        Err(error) => assert_eq!(error.display(), "tunnel intervals must be greater than zero"),
        Ok(_) => panic!("a zero interval was accepted"),
    }
}

fn friend(bridge: &mut MineshaftBridge, id: u32, guid: u64, ident: &str, port: u16) -> RemoteServer {
    assert!(bridge.add_server(id, guid, local(19999), ident, port).is_none());
    bridge.server_manager.get_server(id).unwrap()
}

#[test]
fn test_full_mineshaft_end_to_end_flow() {
    let relay_addr = local(19999);
    let mc_addr = local(50000);

    // Initialize Mineshaft Bridge for our local user (ClientId: 777)
    let mut bridge =
        MineshaftBridge::new(777, relay_addr, mc_addr, Platform::Linux, None).unwrap();

    // Friend 1 (Ahmet), Friend 2 (Mehmet), and Friend 3 (Ayşe) open worlds
    let s1 = friend(
        &mut bridge,
        1001,
        888001,
        "MCPE;Ahmet's World;776;1.21.60;1;5;888001;Sub;Survival;1;19132;19133;",
        41001,
    );
    let mut s2 = friend(
        &mut bridge,
        1002,
        888002,
        "MCPE;Mehmet's World;776;1.21.60;3;8;888002;Sub;Survival;1;19132;19133;",
        41002,
    );
    let s3 = friend(
        &mut bridge,
        1003,
        888003,
        "MCPE;Ayşe's World;776;1.21.60;2;10;888003;Sub;Creative;2;19132;19133;",
        41003,
    );
    assert_ne!(s1.ephemeral_port, s2.ephemeral_port);
    assert_ne!(s2.ephemeral_port, s3.ephemeral_port);
    assert_ne!(s1.ephemeral_port, s3.ephemeral_port);
    assert_eq!(bridge.server_manager.count(), 3);

    // Minecraft opens Friends tab -> Pong rain sent to mc_addr
    let sent = bridge.pong_engine.send_pong_burst_to(&bridge.server_manager, Some(1), mc_addr);
    assert_eq!(sent.len(), 3);
    let mut received_servers = Vec::new();
    for datagram in &sent {
        let (_ts, guid, ident_str) = parse_unconnected_pong(&datagram.bytes).unwrap();
        let ident = BedrockIdentifier::parse(&ident_str).unwrap();
        received_servers.push((guid, ident.server_name, ident.port_ipv4));
    }

    // Verify each world has distinct GUID and points to its own ephemeral port
    for (guid, name, port) in [
        (888001, "Ahmet's World", s1.ephemeral_port),
        (888002, "Mehmet's World", s2.ephemeral_port),
        (888003, "Ayşe's World", s3.ephemeral_port),
    ] {
        assert!(received_servers.iter().any(|(g, n, p)| *g == guid && n == name && *p == port));
    }

    // User clicks Mehmet's World -> Minecraft sends Open Connection Request
    let sample_raknet_packet = b"RakNet OpenConnectionRequest #1";
    let input = ForwarderInput::Datagram { bytes: sample_raknet_packet, from: mc_addr };
    let out = match bridge.tunnel.client_forwarder_step(&mut bridge.server_manager, &mut s2, input) {
        ForwarderStep::Send(out) => out,
        ForwarderStep::Stop => panic!("a datagram is forwarded"),
    };
    assert_eq!(out.to, relay_addr);
    let (header, payload) = MineshaftHeader::decode(&out.bytes).unwrap();
    assert_eq!(header.target_session_id, 1002);
    assert_eq!(header.sender_session_id, 777);
    assert_eq!(payload, sample_raknet_packet);

    // Mehmet's host replies through relay: [ 777 (Me), 1002 (Mehmet) ] + OpenConnectionReply
    let sample_reply = b"RakNet OpenConnectionReply #1";
    let reply_pkt = MineshaftHeader::new(777, 1002).encapsulate(sample_reply);
    let action = bridge.tunnel.handle_relay_datagram(
        &bridge.server_manager,
        &bridge.access_control,
        &reply_pkt,
        at(0),
    );
    match action {
        TunnelAction::ToClient { server, to, payload } => {
            assert_eq!(server, s2.target_client_id);
            assert_eq!(to, mc_addr);
            assert_eq!(payload, sample_reply);
        }
        _ => panic!("Minecraft client should receive server reply"),
    }

    // Test removing Ahmet's server
    let removed = bridge.remove_server(1001);
    assert!(removed.is_some());
    assert_eq!(bridge.server_manager.count(), 2);

    // Verify next pong burst only sends 2 worlds (Mehmet and Ayşe)
    let sent_after =
        bridge.pong_engine.send_pong_burst_to(&bridge.server_manager, Some(2), mc_addr);
    assert_eq!(sent_after.len(), 2);

    bridge.stop();
    assert!(bridge.stopped);
}

#[test]
fn bridge_passes_its_settings_on() {
    let mut bridge =
        MineshaftBridge::new(5, local(1), local(2), Platform::Windows, Some(Ok(false))).unwrap();
    assert_eq!(bridge.detector.config().target_addr, local(2));
    assert_eq!(bridge.pong_engine.config().broadcast_targets, vec![local(2)]);
    assert_eq!(bridge.tunnel.config().my_client_id, 5);
    assert_eq!(bridge.tunnel.config().relay_addr, local(1));
    assert_eq!(bridge.tunnel.config().local_minecraft_addr, local(2));
    bridge.set_reflector_address(IpAddr::v4(10, 10, 10, 10));
    assert_eq!(bridge.network.effective_bind_ip(), IpAddr::v4(10, 10, 10, 10));
    assert_eq!(bridge.server_manager.get_bind_ip(), IpAddr::v4(10, 10, 10, 10));
    bridge.block_player(9);
    assert!(!bridge.access_control.is_allowed(9));
    bridge.unblock_player(9);
    assert!(bridge.access_control.is_allowed(9));
    let failed = MineshaftBridge::new(
        5,
        local(1),
        local(2),
        Platform::Windows,
        Some(Err(IoError::Other("denied".to_string()))),
    );
    assert!(failed.is_err());
}

#[test]
fn payload_crosses_tunnel_and_relay() {
    use_the_whole_way(b"hello world");
}

fn use_the_whole_way(payload: &[u8]) {
    let mut relay = mineshaft::server::relay::RelayServer::bind(
        mineshaft::server::relay::RelayConfig::default(),
    )
    .unwrap();
    let mut host = tunnel(100);
    let player = tunnel(300);
    relay.handle_datagram(&host.send_handshake().bytes, local(1), at(0));
    relay.handle_datagram(&player.send_handshake().bytes, local(3), at(0));

    let mut worlds = ServerManager::new();
    worlds.add_server(100, 1, local(19999), "x", 40100);
    let remote = worlds.get_server(100).unwrap();
    let out = player.client_packet(&remote, payload);
    let forwarded = match relay.handle_datagram(&out.bytes, local(3), at(0)) {
        mineshaft::server::relay::RelayAction::Forward { to, bytes } => {
            assert_eq!(to, local(1));
            bytes
        }
        _ => panic!("the packet is forwarded"),
    };
    let arrived =
        host.handle_relay_datagram(&ServerManager::new(), &AccessControl::new(), &forwarded, at(0));
    match arrived {
        TunnelAction::Connect { peer, payload: got, .. } => {
            assert_eq!(peer, 300);
            assert_eq!(got, payload);
        }
        _ => panic!("the player connects"),
    }
}
