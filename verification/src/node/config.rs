//! What a node advertises, and what it is started with.

use vstd::prelude::*;

use crate::addr;
use crate::addr::{IpAddr, SocketAddr};
use crate::time::Duration;

verus! {

/// Server metadata advertised to the local Minecraft client.
#[derive(Debug)]
pub struct ServerAdvertisement {
    /// Name shown as the server owner in the LAN list.
    pub server_name: String,
    /// World or level name shown in the LAN list.
    pub level_name: String,
    /// Default game mode (0 Survival, 1 Creative, 2 Adventure, 3 Spectator).
    pub game_type: u8,
    /// Current player count (must be at least 1 to stay visible).
    pub player_count: i32,
    /// Maximum player count.
    pub max_player_count: i32,
    /// Whether this is an editor-mode world.
    pub editor_world: bool,
    /// Whether hardcore mode is enabled.
    pub hardcore: bool,
    /// Extra compatibility flag of ServerData v6.
    pub flag_a: bool,
    /// Extra compatibility flag of ServerData v6.
    pub flag_b: bool,
    /// Session identifier of 16 lowercase hexadecimal characters, used by ServerData v6.
    pub session_id: String,
    /// Transport layer (2 is NetherNet).
    pub transport_layer: u8,
    /// Connection type (4 is LAN).
    pub connection_type: u8,
}

/// A [`ServerAdvertisement`] as mathematical values.
pub struct AdvertisementModel {
    pub server_name: Seq<char>,
    pub level_name: Seq<char>,
    pub game_type: u8,
    pub player_count: i32,
    pub max_player_count: i32,
    pub editor_world: bool,
    pub hardcore: bool,
    pub flag_a: bool,
    pub flag_b: bool,
    pub session_id: Seq<char>,
    pub transport_layer: u8,
    pub connection_type: u8,
}

impl View for ServerAdvertisement {
    type V = AdvertisementModel;

    open spec fn view(&self) -> AdvertisementModel {
        AdvertisementModel {
            server_name: self.server_name@,
            level_name: self.level_name@,
            game_type: self.game_type,
            player_count: self.player_count,
            max_player_count: self.max_player_count,
            editor_world: self.editor_world,
            hardcore: self.hardcore,
            flag_a: self.flag_a,
            flag_b: self.flag_b,
            session_id: self.session_id@,
            transport_layer: self.transport_layer,
            connection_type: self.connection_type,
        }
    }
}

impl Clone for ServerAdvertisement {
    fn clone(&self) -> (r: Self)
        ensures
            r@ == self@,
    {
        ServerAdvertisement {
            server_name: self.server_name.clone(),
            level_name: self.level_name.clone(),
            game_type: self.game_type,
            player_count: self.player_count,
            max_player_count: self.max_player_count,
            editor_world: self.editor_world,
            hardcore: self.hardcore,
            flag_a: self.flag_a,
            flag_b: self.flag_b,
            session_id: self.session_id.clone(),
            transport_layer: self.transport_layer,
            connection_type: self.connection_type,
        }
    }
}

impl PartialEq for ServerAdvertisement {
    fn eq(&self, other: &Self) -> (r: bool) {
        self.server_name == other.server_name && self.level_name == other.level_name
            && self.game_type == other.game_type && self.player_count == other.player_count
            && self.max_player_count == other.max_player_count && self.editor_world
            == other.editor_world && self.hardcore == other.hardcore && self.flag_a == other.flag_a
            && self.flag_b == other.flag_b && self.session_id == other.session_id
            && self.transport_layer == other.transport_layer && self.connection_type
            == other.connection_type
    }
}

impl vstd::std_specs::cmp::PartialEqSpecImpl for ServerAdvertisement {
    open spec fn obeys_eq_spec() -> bool {
        true
    }

    open spec fn eq_spec(&self, other: &Self) -> bool {
        self@ == other@
    }
}

impl Eq for ServerAdvertisement {

}

impl Default for ServerAdvertisement {
    fn default() -> (r: Self)
        ensures
            r@ == (AdvertisementModel {
                server_name: "mineshaft"@,
                level_name: "mineshaft world"@,
                game_type: 0,
                player_count: 1,
                max_player_count: 8,
                editor_world: false,
                hardcore: false,
                flag_a: true,
                flag_b: true,
                session_id: "0000000000000000"@,
                transport_layer: 2,
                connection_type: 4,
            }),
    {
        ServerAdvertisement {
            server_name: "mineshaft".to_owned(),
            level_name: "mineshaft world".to_owned(),
            game_type: 0,
            player_count: 1,
            max_player_count: 8,
            editor_world: false,
            hardcore: false,
            flag_a: true,
            flag_b: true,
            session_id: "0000000000000000".to_owned(),
            transport_layer: 2,
            connection_type: 4,
        }
    }
}

/// How a node advertises into the local game.
#[derive(Debug)]
pub struct DiscoveryConfig {
    /// How often each advertised server is sent into the local game again.
    pub heartbeat_interval: Duration,
    /// Where the local game listens.
    pub local_targets: Vec<SocketAddr>,
    /// Where the local signaling socket is bound.
    pub bind_addr: SocketAddr,
}

impl Clone for DiscoveryConfig {
    fn clone(&self) -> (r: Self)
        ensures
            r.heartbeat_interval == self.heartbeat_interval,
            r.local_targets@ == self.local_targets@,
            r.bind_addr == self.bind_addr,
    {
        let local_targets = self.local_targets.clone();
        assert(local_targets@ =~= self.local_targets@);
        DiscoveryConfig {
            heartbeat_interval: self.heartbeat_interval,
            local_targets,
            bind_addr: self.bind_addr,
        }
    }
}

impl Default for DiscoveryConfig {
    fn default() -> (r: Self)
        ensures
            r.heartbeat_interval.nanos == 500_000_000,
            r.local_targets@.len() == 2,
            r.local_targets@[0] == addr::endpoint(IpAddr::V6(1), 7551),
            addr::is_loopback_at(r.local_targets@[1], 7551),
            r.bind_addr == (SocketAddr::V4 { ip: 0, port: 0 }),
    {
        DiscoveryConfig {
            heartbeat_interval: Duration::from_millis(500),
            local_targets: vec![
                SocketAddr::new(IpAddr::V6(1), 7551),
                SocketAddr::new(IpAddr::v4(127, 0, 0, 1), 7551),
            ],
            bind_addr: SocketAddr::new(IpAddr::v4(0, 0, 0, 0), 0),
        }
    }
}

/// How many hosts a relay registry keeps.
#[derive(Clone, Copy, Debug, PartialEq, Eq, Structural)]
pub struct RelayConfig {
    /// Cap on the number of advertised hosts kept in memory.
    pub max_advertised_hosts: usize,
}

impl Default for RelayConfig {
    fn default() -> (r: Self)
        ensures
            r.max_advertised_hosts == 64,
    {
        RelayConfig { max_advertised_hosts: 64 }
    }
}

/// An advertisement is known by all that it says.
pub proof fn advertisement_is_all_it_says(a: ServerAdvertisement)
    ensures
        a@.server_name == a.server_name@,
        a@.level_name == a.level_name@,
        a@.game_type == a.game_type,
        a@.player_count == a.player_count,
        a@.max_player_count == a.max_player_count,
        a@.editor_world == a.editor_world,
        a@.hardcore == a.hardcore,
        a@.flag_a == a.flag_a,
        a@.flag_b == a.flag_b,
        a@.session_id == a.session_id@,
        a@.transport_layer == a.transport_layer,
        a@.connection_type == a.connection_type,
{
}

/// Two advertisements count as equal exactly where they say the same in every field.
pub proof fn equal_advertisements_say_the_same(a: ServerAdvertisement, b: ServerAdvertisement)
    ensures
        vstd::std_specs::cmp::PartialEqSpec::eq_spec(&a, &b) <==> {
            &&& a.server_name@ == b.server_name@
            &&& a.level_name@ == b.level_name@
            &&& a.game_type == b.game_type
            &&& a.player_count == b.player_count
            &&& a.max_player_count == b.max_player_count
            &&& a.editor_world == b.editor_world
            &&& a.hardcore == b.hardcore
            &&& a.flag_a == b.flag_a
            &&& a.flag_b == b.flag_b
            &&& a.session_id@ == b.session_id@
            &&& a.transport_layer == b.transport_layer
            &&& a.connection_type == b.connection_type
        },
{
}

} // verus!
