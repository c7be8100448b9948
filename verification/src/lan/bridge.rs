//! The parts of the virtual LAN, put together for one client.

use vstd::prelude::*;

use crate::addr;
use crate::addr::{IpAddr, SocketAddr};
use crate::io_error::IoError;
use crate::lan::access::{AccessControl, AccessModel};
use crate::lan::detector;
use crate::lan::detector::{ServerDetector, ServerDetectorConfig};
use crate::lan::manager;
use crate::lan::manager::{ManagerModel, RemoteModel, RemoteServer, ServerManager};
use crate::lan::network::{Platform, PlatformNetwork};
use crate::lan::pong::{PongEngine, PongEngineConfig};
use crate::lan::tunnel::{HostPeerSession, TunnelConfig, TunnelEngine};

verus! {

/// One client's view of the virtual LAN.
pub struct MineshaftBridge {
    pub client_id: u32,
    pub relay_addr: SocketAddr,
    pub network: PlatformNetwork,
    pub server_manager: ServerManager,
    pub access_control: AccessControl,
    pub detector: ServerDetector,
    pub pong_engine: PongEngine,
    pub tunnel: TunnelEngine,
    /// Whether the background work is to end.
    pub stopped: bool,
}

/// Whether two bridges differ in nothing but their worlds, access rules, network and whether they
/// were stopped.
pub open spec fn same_engines(a: MineshaftBridge, b: MineshaftBridge) -> bool {
    &&& a.client_id == b.client_id
    &&& a.relay_addr == b.relay_addr
    &&& a.detector == b.detector
    &&& a.pong_engine == b.pong_engine
    &&& a.tunnel == b.tunnel
}

impl MineshaftBridge {
    /// Whether the parts are in order.
    pub open spec fn wf(&self) -> bool {
        &&& self.server_manager.wf()
        &&& self.detector.wf()
    }

    /// Whether local sockets are bound where the network says.
    pub open spec fn follows_network(&self) -> bool {
        self.server_manager@.bind_ip == self.network.bind_ip()
    }

    /// A bridge for a client, between its relay and its local game. It fails only where the
    /// loopback exemption could not be asked for.
    pub fn new(
        client_id: u32,
        relay_addr: SocketAddr,
        local_minecraft_addr: SocketAddr,
        platform: Platform,
        exemption: Option<Result<bool, IoError>>,
    ) -> (r: Result<Self, IoError>)
        ensures
            match exemption {
                Some(Err(e)) => r == Err::<MineshaftBridge, IoError>(e),
                _ => r is Ok,
            },
            r matches Ok(bridge) ==> {
                &&& bridge.wf()
                &&& bridge.follows_network()
                &&& bridge.client_id == client_id
                &&& bridge.relay_addr == relay_addr
                &&& bridge.network.platform == platform
                &&& bridge.network.reflector_ip is None
                &&& addr::is_loopback(bridge.network.loopback_ip)
                &&& bridge.server_manager@.servers == Map::<u32, RemoteModel>::empty()
                &&& bridge.server_manager@.ports == Map::<u16, u32>::empty()
                &&& bridge.access_control@ == (AccessModel {
                    blocked: Set::empty(),
                    followers_only: false,
                    followers: Set::empty(),
                })
                &&& bridge.detector@ == detector::unaware()
                &&& bridge.detector.settings().target_addr == local_minecraft_addr
                &&& bridge.detector.settings().bind_addr == (SocketAddr::V4 { ip: 0, port: 0 })
                &&& bridge.detector.settings().probe_interval.nanos == 1_500_000_000
                &&& bridge.detector.settings().timeout.nanos == 5_000_000_000
                &&& bridge.pong_engine.targets() == seq![local_minecraft_addr]
                &&& bridge.pong_engine.settings().listen_addr == Some(
                    SocketAddr::V4 { ip: 0, port: 19132 },
                )
                &&& bridge.pong_engine.settings().bind_addr == (SocketAddr::V4 { ip: 0, port: 0 })
                &&& bridge.pong_engine.settings().burst_interval.nanos == 1_000_000_000
                &&& bridge.tunnel@ == Map::<u32, HostPeerSession>::empty()
                &&& bridge.tunnel.settings().my_client_id == client_id
                &&& bridge.tunnel.settings().relay_addr == relay_addr
                &&& bridge.tunnel.settings().local_minecraft_addr == local_minecraft_addr
                &&& bridge.tunnel.settings().bind_addr == (SocketAddr::V4 { ip: 0, port: 0 })
                &&& bridge.tunnel.settings().keepalive_interval.nanos == 25_000_000_000
                &&& bridge.tunnel.settings().session_timeout.nanos == 30_000_000_000
                &&& !bridge.stopped
            },
    {
        let network = PlatformNetwork::new(platform);
        match network.ensure_windows_loopback_exempt(exemption) {
            Ok(_) => {},
            Err(e) => {
                return Err(e);
            },
        }
        let detector_config = ServerDetectorConfig {
            target_addr: local_minecraft_addr,
            ..ServerDetectorConfig::default()
        };
        let detector = match ServerDetector::bind(detector_config) {
            Ok(detector) => detector,
            Err(e) => {
                return Err(e);
            },
        };
        let pong_config = PongEngineConfig {
            broadcast_targets: vec![local_minecraft_addr],
            ..PongEngineConfig::default()
        };
        assert(pong_config.broadcast_targets@ =~= seq![local_minecraft_addr]);
        let pong_engine = match PongEngine::new(pong_config) {
            Ok(engine) => engine,
            Err(e) => {
                return Err(e);
            },
        };
        let tunnel_config = TunnelConfig {
            my_client_id: client_id,
            relay_addr,
            local_minecraft_addr,
            ..TunnelConfig::default()
        };
        let tunnel = match TunnelEngine::bind(tunnel_config) {
            Ok(tunnel) => tunnel,
            Err(e) => {
                return Err(e);
            },
        };
        Ok(
            MineshaftBridge {
                client_id,
                relay_addr,
                network,
                server_manager: ServerManager::new(),
                access_control: AccessControl::new(),
                detector,
                pong_engine,
                tunnel,
                stopped: false,
            },
        )
    }

    /// Adds a friend's world to the virtual LAN, behind the given local port, and hands back the one
    /// that it replaces.
    pub fn add_server(
        &mut self,
        target_client_id: u32,
        target_raknet_id: u64,
        relay_addr: SocketAddr,
        identifier: &str,
        ephemeral_port: u16,
    ) -> (r: Option<RemoteServer>)
        requires
            old(self).wf(),
        ensures
            final(self).wf(),
            same_engines(*final(self), *old(self)),
            final(self).network == old(self).network,
            final(self).access_control == old(self).access_control,
            final(self).stopped == old(self).stopped,
            final(self).server_manager@ == manager::with_server(
                old(self).server_manager@,
                manager::new_server(
                    target_client_id,
                    target_raknet_id,
                    relay_addr,
                    identifier@,
                    ephemeral_port,
                    old(self).server_manager@.next_serial,
                ),
            ),
            match r {
                Some(replaced) => old(self).server_manager@.servers.contains_key(target_client_id)
                    && replaced@ == manager::shut(
                    old(self).server_manager@.servers[target_client_id],
                ),
                None => !old(self).server_manager@.servers.contains_key(target_client_id),
            },
    {
        self.server_manager.add_server(
            target_client_id,
            target_raknet_id,
            relay_addr,
            identifier,
            ephemeral_port,
        )
    }

    /// Removes a friend's world from the virtual LAN.
    pub fn remove_server(&mut self, target_client_id: u32) -> (r: Option<RemoteServer>)
        requires
            old(self).wf(),
        ensures
            final(self).wf(),
            same_engines(*final(self), *old(self)),
            final(self).network == old(self).network,
            final(self).access_control == old(self).access_control,
            final(self).stopped == old(self).stopped,
            final(self).server_manager@ == manager::without_server(
                old(self).server_manager@,
                target_client_id,
            ),
            match r {
                Some(removed) => old(self).server_manager@.servers.contains_key(target_client_id)
                    && removed@ == manager::shut(
                    old(self).server_manager@.servers[target_client_id],
                ),
                None => !old(self).server_manager@.servers.contains_key(target_client_id),
            },
    {
        self.server_manager.remove_server(target_client_id)
    }

    /// Keeps a player out of the local world.
    pub fn block_player(&mut self, client_id: u32)
        requires
            old(self).wf(),
        ensures
            final(self).wf(),
            same_engines(*final(self), *old(self)),
            final(self).network == old(self).network,
            final(self).server_manager == old(self).server_manager,
            final(self).stopped == old(self).stopped,
            final(self).access_control@ == (AccessModel {
                blocked: old(self).access_control@.blocked.insert(client_id),
                ..old(self).access_control@
            }),
    {
        self.access_control.block_player(client_id);
    }

    /// Lets a player in again.
    pub fn unblock_player(&mut self, client_id: u32)
        requires
            old(self).wf(),
        ensures
            final(self).wf(),
            same_engines(*final(self), *old(self)),
            final(self).network == old(self).network,
            final(self).server_manager == old(self).server_manager,
            final(self).stopped == old(self).stopped,
            final(self).access_control@ == (AccessModel {
                blocked: old(self).access_control@.blocked.remove(client_id),
                ..old(self).access_control@
            }),
    {
        self.access_control.unblock_player(client_id);
    }

    /// Sets the reflector's address, under which new worlds are then reached.
    pub fn set_reflector_address(&mut self, ip: IpAddr)
        requires
            old(self).wf(),
        ensures
            final(self).wf(),
            final(self).follows_network(),
            same_engines(*final(self), *old(self)),
            final(self).access_control == old(self).access_control,
            final(self).stopped == old(self).stopped,
            final(self).network == (PlatformNetwork {
                reflector_ip: Some(ip),
                ..old(self).network
            }),
            final(self).server_manager@ == (ManagerModel {
                bind_ip: ip,
                ..old(self).server_manager@
            }),
    {
        self.network.set_reflector(ip);
        self.server_manager.set_bind_ip(ip);
    }

    /// Ends the background work.
    pub fn stop(&mut self)
        requires
            old(self).wf(),
        ensures
            final(self).wf(),
            same_engines(*final(self), *old(self)),
            final(self).network == old(self).network,
            final(self).server_manager == old(self).server_manager,
            final(self).access_control == old(self).access_control,
            final(self).stopped,
    {
        self.stopped = true;
    }
}

/// What is left alone on a bridge: who the client is, where its relay is, and the state of what
/// looks for the local world, answers pings and carries the traffic.
pub proof fn engines_are_left_alone(a: MineshaftBridge, b: MineshaftBridge)
    requires
        same_engines(a, b),
    ensures
        a.client_id == b.client_id,
        a.relay_addr == b.relay_addr,
        a.detector@ == b.detector@,
        a.detector.settings() == b.detector.settings(),
        a.pong_engine.settings() == b.pong_engine.settings(),
        a.pong_engine.targets() == b.pong_engine.targets(),
        a.tunnel@ == b.tunnel@,
        a.tunnel.settings() == b.tunnel.settings(),
{
}

/// A bridge whose sockets follow the network binds them to the reflector's address where there is
/// one, and to the loopback address otherwise.
pub proof fn sockets_are_bound_where_the_network_says(bridge: MineshaftBridge)
    requires
        bridge.follows_network(),
    ensures
        match bridge.network.reflector_ip {
            Some(ip) => bridge.server_manager@.bind_ip == ip,
            None => bridge.server_manager@.bind_ip == bridge.network.loopback_ip,
        },
{
}

} // verus!
