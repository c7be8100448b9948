//! A node's client: what it tells the rendezvous server, and whose signals it hands to the game.

use std::collections::HashMap;

use vstd::prelude::*;

use crate::addr;
use crate::addr::{IpAddr, SocketAddr};
use crate::lan::network::Platform;
use crate::maps::keys_of;
use crate::node::config::{AdvertisementModel, DiscoveryConfig, ServerAdvertisement};
use crate::node::discovery::AdvertisedServer;
use crate::node::net::ClientMessage;
use crate::text;
use crate::text::{chars_of, hex_char, same_text};
use crate::time;
use crate::time::{Duration, Instant};

verus! {

broadcast use vstd::std_specs::hash::group_hash_axioms;

/// The most join connections that are remembered, so that a game that hammers offers does not make
/// the node remember ever more.
pub const MAX_JOIN_CONNS: usize = 1024;

/// The time after which a silent connection counts as dead, in nanoseconds.
pub const LIVENESS_TIMEOUT_NANOS: u128 = 45_000_000_000;

/// The time between two pings, in nanoseconds.
pub const PING_INTERVAL_NANOS: u128 = 15_000_000_000;

/// The port that the game answers discovery requests on.
pub const GAME_PORT: u16 = 7551;

/// What the local game does with its discovery port.
#[derive(Clone, Copy, Debug, PartialEq, Eq, Structural)]
pub enum GameState {
    Closed,
    Browsing,
    Hosting,
}

/// The state of the game: up when its port is bound, and hosting when it also answers a discovery
/// request. A port that could not be probed counts as free.
pub fn detect_game_state(port_bound: Option<bool>, answers: bool) -> (r: GameState)
    ensures
        r == (if port_bound == Some(true) {
            if answers {
                GameState::Hosting
            } else {
                GameState::Browsing
            }
        } else {
            GameState::Closed
        }),
{
    match port_bound {
        Some(bound) => if bound {
            if answers {
                GameState::Hosting
            } else {
                GameState::Browsing
            }
        } else {
            GameState::Closed
        },
        None => GameState::Closed,
    }
}

/// Where the local game is reached from a socket at this endpoint, if it is known. A socket reaches
/// only addresses of its own family, so that one with an IPv6 address sends to the IPv6 loopback
/// address and any other to that of IPv4.
pub fn game_endpoint(local: Option<SocketAddr>) -> (r: SocketAddr)
    ensures
        match local {
            Some(SocketAddr::V6 { ip, port, flowinfo, scope_id }) => r == addr::endpoint(
                IpAddr::V6(1),
                GAME_PORT,
            ),
            _ => addr::is_loopback_at(r, GAME_PORT),
        },
        addr::is_loopback_at(r, 7551) || r == addr::endpoint(IpAddr::V6(1), 7551),
{
    match local {
        Some(SocketAddr::V6 { ip: _, port: _, flowinfo: _, scope_id: _ }) => SocketAddr::new(
            IpAddr::V6(1),
            GAME_PORT,
        ),
        _ => SocketAddr::new(IpAddr::v4(127, 0, 0, 1), GAME_PORT),
    }
}

/// How a node advertises into the game of a platform. The game for Windows lives in a container, so
/// that the node's socket stays on the loopback address there.
pub fn node_discovery_config(platform: Platform) -> (r: DiscoveryConfig)
    ensures
        r.heartbeat_interval.nanos == 500_000_000,
        r.local_targets@.len() == 2,
        r.local_targets@[0] == addr::endpoint(IpAddr::V6(1), GAME_PORT),
        r.local_targets@[0] == addr::endpoint(IpAddr::V6(1), 7551),
        addr::is_loopback_at(r.local_targets@[1], GAME_PORT),
        if platform == Platform::Windows {
            addr::is_loopback_at(r.bind_addr, 0)
        } else {
            r.bind_addr == (SocketAddr::V4 { ip: 0, port: 0 })
        },
{
    let config = DiscoveryConfig::default();
    if platform == Platform::Windows {
        DiscoveryConfig { bind_addr: SocketAddr::new(IpAddr::v4(127, 0, 0, 1), 0), ..config }
    } else {
        config
    }
}

// ---------------------------------------------------------------------------
// The server's address
// ---------------------------------------------------------------------------
/// Whether an argument is an option.
pub open spec fn is_option(arg: Seq<char>) -> bool {
    arg.len() > 0 && arg[0] == '-'
}

/// The place of the first `--server`, from `i` on.
pub open spec fn server_flag(args: Seq<Seq<char>>, i: int) -> Option<int>
    decreases args.len() - i,
{
    if i < 0 || i >= args.len() {
        None
    } else if args[i] == "--server"@ {
        Some(i)
    } else {
        server_flag(args, i + 1)
    }
}

/// The first argument from `i` on that is no option.
pub open spec fn first_plain(args: Seq<Seq<char>>, i: int) -> Option<Seq<char>>
    decreases args.len() - i,
{
    if i < 0 || i >= args.len() {
        None
    } else if !is_option(args[i]) {
        Some(args[i])
    } else {
        first_plain(args, i + 1)
    }
}

/// The rendezvous server's address: what follows the first `--server`, or else the first argument
/// that is no option, or else the environment's, or else the default. The first argument is the
/// program's name.
pub open spec fn server_addr(args: Seq<Seq<char>>, env: Option<Seq<char>>) -> Seq<char> {
    let flag = server_flag(args, 0);
    if flag is Some && flag->0 + 1 < args.len() {
        args[flag->0 + 1]
    } else if first_plain(args, 1) is Some {
        first_plain(args, 1)->0
    } else if env is Some && env->0.len() > 0 {
        env->0
    } else {
        "127.0.0.1:25000"@
    }
}

fn starts_with_dash(arg: &str) -> (r: bool)
    ensures
        r == is_option(arg@),
{
    let chars = chars_of(arg);
    chars.len() > 0 && chars[0] == '-'
}

/// Finds the rendezvous server's address.
pub fn resolve_server_addr(args: &Vec<String>, env: Option<String>) -> (r: String)
    ensures
        r@ == server_addr(
            text::views(args@),
            match env {
                Some(e) => Some(e@),
                None => None,
            },
        ),
{
    let ghost all = text::views(args@);
    let mut flag: Option<usize> = None;
    let mut i: usize = 0;
    while i < args.len() && flag.is_none()
        invariant
            all == text::views(args@),
            i <= args.len(),
            match flag {
                Some(at) => at < args.len() && server_flag(all, 0) == Some(at as int),
                None => server_flag(all, 0) == server_flag(all, i as int),
            },
        decreases args.len() - i,
    {
        assert(all[i as int] == args@[i as int]@);
        if same_text(args[i].as_str(), "--server") {
            flag = Some(i);
        }
        i = i + 1;
    }
    if let Some(at) = flag {
        if at + 1 < args.len() {
            assert(all[at + 1] == args@[at + 1]@);
            return args[at + 1].clone();
        }
    }
    let mut k: usize = 1;
    while k < args.len()
        invariant
            all == text::views(args@),
            1 <= k,
            first_plain(all, 1) == first_plain(all, k as int),
            !(server_flag(all, 0) is Some && server_flag(all, 0)->0 + 1 < all.len()),
        decreases args.len() - k,
    {
        assert(all[k as int] == args@[k as int]@);
        if !starts_with_dash(args[k].as_str()) {
            return args[k].clone();
        }
        k = k + 1;
    }
    if let Some(addr) = env {
        if !addr.as_str().is_empty() {
            return addr;
        }
    }
    "127.0.0.1:25000".to_owned()
}

// ---------------------------------------------------------------------------
// The node
// ---------------------------------------------------------------------------
/// Who clicked what on a connection: the local game's network id, and the advertised id that it
/// wants to join.
#[derive(Clone, Copy, Debug, PartialEq, Eq, Structural)]
pub struct JoinConn {
    pub game_id: u64,
    pub target_id: u64,
}

/// As whom and to whom a signal is handed to the local game.
#[derive(Clone, Copy, Debug, PartialEq, Eq, Structural)]
pub struct Injection {
    pub sender: u64,
    pub recipient: u64,
}

/// What the node does while the game hosts a world that the server does not know as it is.
#[derive(Debug)]
pub struct HostUpdate {
    /// Whether the worlds of others are withdrawn from the local game first.
    pub clear_advertised: bool,
    /// What the node then advertises under its own id.
    pub advertisement: ServerAdvertisement,
    /// What it tells the server.
    pub message: ClientMessage,
}

/// What the node does while the game hosts nothing.
#[derive(Debug)]
pub struct IdleUpdate {
    /// What it tells the server, if anything.
    pub message: Option<ClientMessage>,
    /// Whether the worlds of others are withdrawn from the local game.
    pub clear_advertised: bool,
}

/// A [`NodeClient`] as mathematical values.
pub struct ClientModel {
    pub network_id: u64,
    /// The network id of the game that hosts locally.
    pub local_game_id: Option<u64>,
    /// Whether the server knows that this node hosts.
    pub hosting_registered: bool,
    /// What the server was told of the hosted world.
    pub registered: Option<AdvertisementModel>,
    /// How many worlds of others are advertised to the local game.
    pub advertised_count: nat,
    pub join_conns: Map<u64, JoinConn>,
    /// When the server was last heard of.
    pub last_seen: Instant,
    /// When the server was last pinged.
    pub last_ping: Instant,
}

/// The view of an advertisement that may be missing.
pub open spec fn advertisement_view(ad: Option<ServerAdvertisement>) -> Option<AdvertisementModel> {
    match ad {
        Some(ad) => Some(ad@),
        None => None,
    }
}

/// The node after the server was told that it hosts no more.
pub open spec fn unregistered(m: ClientModel) -> ClientModel {
    ClientModel { hosting_registered: false, registered: None, ..m }
}

/// The lowest hexadecimal digits of a number, in lower case, with leading zeros.
pub open spec fn hex16(n: nat, digits: nat) -> Seq<char>
    decreases digits,
{
    if digits == 0 {
        Seq::empty()
    } else {
        hex16(n / 16, (digits - 1) as nat).push(text::hex_digit(n % 16))
    }
}

/// There are as many digits as were asked for, whatever the number.
pub proof fn hex16_has_its_length(n: nat, digits: nat)
    ensures
        hex16(n, digits).len() == digits,
    decreases digits,
{
    if digits > 0 {
        hex16_has_its_length(n / 16, (digits - 1) as nat);
    }
}

/// What is advertised of a hosted world that did not say what it is.
pub open spec fn default_world(network_id: u64) -> AdvertisementModel {
    AdvertisementModel {
        server_name: "mineshaft"@,
        level_name: "mineshaft world"@,
        game_type: 0,
        player_count: 1,
        max_player_count: 8,
        editor_world: false,
        hardcore: false,
        flag_a: true,
        flag_b: true,
        session_id: hex16(network_id as nat, 16),
        transport_layer: 2,
        connection_type: 4,
    }
}

/// The node with the id of the game that hosts, where it is known.
pub open spec fn with_game(m: ClientModel, game_id: Option<u64>) -> ClientModel {
    ClientModel {
        local_game_id: if game_id is Some {
            game_id
        } else {
            m.local_game_id
        },
        ..m
    }
}

/// Whether the server has to be told of a hosted world.
pub open spec fn host_changed(m: ClientModel, world: AdvertisementModel) -> bool {
    !m.hosting_registered || m.registered != Some(world)
}

/// Whether `after` are the join connections once one was remembered: where there are as many as may
/// be, one of those that were there is forgotten.
pub open spec fn remembers(
    before: Map<u64, JoinConn>,
    after: Map<u64, JoinConn>,
    connection_id: u64,
    conn: JoinConn,
) -> bool {
    if before.dom().len() < MAX_JOIN_CONNS {
        after == before.insert(connection_id, conn)
    } else {
        exists|forgotten: u64| #[trigger]
            before.contains_key(forgotten) && after == before.remove(forgotten).insert(
                connection_id,
                conn,
            )
    }
}

/// As whom and to whom a signal goes: for a connection that the local game opened, as the world that
/// it wants to join; otherwise, while the local game hosts, as the joiner.
pub open spec fn injection(
    m: ClientModel,
    connection_id: u64,
    joiner_network_id: u64,
) -> Option<Injection> {
    if m.join_conns.contains_key(connection_id) {
        Some(
            Injection {
                sender: m.join_conns[connection_id].target_id,
                recipient: m.join_conns[connection_id].game_id,
            },
        )
    } else {
        match m.local_game_id {
            Some(game_id) => Some(Injection { sender: joiner_network_id, recipient: game_id }),
            None => None,
        }
    }
}

/// The id that a signal of the local game is addressed to at the server: none, which is zero, where
/// the game hosts; otherwise the world that the game wants to join. A signal of anyone else is not
/// forwarded.
pub open spec fn forward_target(m: ClientModel, sender: u64, target: Option<u64>) -> Option<u64> {
    if sender == m.network_id {
        None
    } else if m.local_game_id == Some(sender) {
        Some(0u64)
    } else {
        target
    }
}

/// What a node knows of its game and of its connection to the rendezvous server.
pub struct NodeClient {
    network_id: u64,
    local_game_id: Option<u64>,
    hosting_registered: bool,
    registered: Option<ServerAdvertisement>,
    advertised_count: usize,
    join_conns: HashMap<u64, JoinConn>,
    last_seen: Instant,
    last_ping: Instant,
}

impl View for NodeClient {
    type V = ClientModel;

    closed spec fn view(&self) -> ClientModel {
        ClientModel {
            network_id: self.network_id,
            local_game_id: self.local_game_id,
            hosting_registered: self.hosting_registered,
            registered: advertisement_view(self.registered),
            advertised_count: self.advertised_count as nat,
            join_conns: self.join_conns@,
            last_seen: self.last_seen,
            last_ping: self.last_ping,
        }
    }
}

fn push_hex16(out: &mut String, n: u64, digits: u8)
    ensures
        final(out)@ == old(out)@ + hex16(n as nat, digits as nat),
    decreases digits,
{
    if digits > 0 {
        push_hex16(out, n / 16, digits - 1);
        let c = hex_char((n % 16) as u8);
        let ghost before = out@;
        out.push(c);
        assert(out@ =~= before + seq![c]);
    }
}

impl NodeClient {
    /// Whether no more join connections are remembered than may be, and the server was told of a
    /// world exactly when it knows that the node hosts.
    pub open spec fn wf(&self) -> bool {
        &&& self@.join_conns.dom().finite()
        &&& self@.join_conns.dom().len() <= MAX_JOIN_CONNS
        &&& self@.hosting_registered <==> self@.registered is Some
    }

    /// A node that knows nothing of its game and is not connected.
    pub fn new(network_id: u64, now: Instant) -> (r: Self)
        ensures
            r.wf(),
            r@ == (ClientModel {
                network_id,
                local_game_id: None,
                hosting_registered: false,
                registered: None,
                advertised_count: 0,
                join_conns: Map::empty(),
                last_seen: now,
                last_ping: now,
            }),
    {
        NodeClient {
            network_id,
            local_game_id: None,
            hosting_registered: false,
            registered: None,
            advertised_count: 0,
            join_conns: HashMap::new(),
            last_seen: now,
            last_ping: now,
        }
    }

    /// A connection to the server was made. The server has forgotten what it was told on an earlier
    /// one.
    pub fn connected(&mut self, now: Instant)
        requires
            old(self).wf(),
        ensures
            final(self).wf(),
            final(self)@ == (ClientModel {
                last_seen: now,
                last_ping: now,
                ..unregistered(old(self)@)
            }),
    {
        self.last_seen = now;
        self.last_ping = now;
        self.hosting_registered = false;
        self.registered = None;
    }

    /// A message of the server has arrived.
    pub fn heard(&mut self, now: Instant)
        requires
            old(self).wf(),
        ensures
            final(self).wf(),
            final(self)@ == (ClientModel { last_seen: now, ..old(self)@ }),
    {
        self.last_seen = now;
    }

    /// Whether the connection is to be given up: its reader has ended, or the server has been silent
    /// for too long.
    pub fn is_dead(&self, reader_alive: bool, now: Instant) -> (r: bool)
        ensures
            r == (!reader_alive || time::timed_out(
                self@.last_seen,
                now,
                Duration { nanos: LIVENESS_TIMEOUT_NANOS },
            )),
            r == (!reader_alive || now.nanos > self@.last_seen.nanos + 45_000_000_000),
    {
        !reader_alive || now.timed_out(
            self.last_seen,
            Duration { nanos: LIVENESS_TIMEOUT_NANOS },
        )
    }

    /// Whether a ping is due on a connection; one that is due counts as sent.
    pub fn ping_due(&mut self, is_connected: bool, now: Instant) -> (r: bool)
        requires
            old(self).wf(),
        ensures
            final(self).wf(),
            r == (is_connected && now.nanos >= old(self)@.last_ping.nanos + PING_INTERVAL_NANOS),
            r ==> now.nanos - old(self)@.last_ping.nanos >= 15_000_000_000,
            is_connected && now.nanos - old(self)@.last_ping.nanos >= 15_000_000_000 ==> r,
            final(self)@ == (if r {
                ClientModel { last_ping: now, ..old(self)@ }
            } else {
                old(self)@
            }),
    {
        if is_connected && now.nanos >= self.last_ping.nanos && now.nanos - self.last_ping.nanos
            >= PING_INTERVAL_NANOS {
            self.last_ping = now;
            return true;
        }
        false
    }

    /// The game is closed: a hosted world is withdrawn from the server, and the worlds of others
    /// from the game.
    pub fn game_closed(&mut self) -> (r: IdleUpdate)
        requires
            old(self).wf(),
        ensures
            final(self).wf(),
            final(self)@ == (ClientModel {
                local_game_id: if old(self)@.hosting_registered {
                    None
                } else {
                    old(self)@.local_game_id
                },
                advertised_count: 0,
                ..unregistered(old(self)@)
            }),
            r.clear_advertised == (old(self)@.advertised_count > 0),
            r.message == (if old(self)@.hosting_registered {
                Some(ClientMessage::UnregisterHost { sender_id: old(self)@.network_id })
            } else {
                None
            }),
    {
        let message = if self.hosting_registered {
            self.local_game_id = None;
            Some(ClientMessage::UnregisterHost { sender_id: self.network_id })
        } else {
            None
        };
        self.hosting_registered = false;
        self.registered = None;
        let clear_advertised = self.advertised_count > 0;
        self.advertised_count = 0;
        IdleUpdate { message, clear_advertised }
    }

    /// The game browses: a hosted world is withdrawn from the server, which is then asked for the
    /// worlds of others. A game id of an earlier world is forgotten first, so that no answer to a
    /// joiner is taken for one to a host.
    pub fn game_browsing(&mut self) -> (r: IdleUpdate)
        requires
            old(self).wf(),
        ensures
            final(self).wf(),
            final(self)@ == (ClientModel { local_game_id: None, ..unregistered(old(self)@) }),
            !r.clear_advertised,
            r.message == (if old(self)@.hosting_registered {
                Some(ClientMessage::UnregisterHost { sender_id: old(self)@.network_id })
            } else {
                None
            }),
    {
        self.local_game_id = None;
        let message = if self.hosting_registered {
            Some(ClientMessage::UnregisterHost { sender_id: self.network_id })
        } else {
            None
        };
        self.hosting_registered = false;
        self.registered = None;
        IdleUpdate { message, clear_advertised: false }
    }

    /// The worlds of others are advertised to the game, this many.
    pub fn worlds_advertised(&mut self, count: usize)
        requires
            old(self).wf(),
        ensures
            final(self).wf(),
            final(self)@ == (ClientModel { advertised_count: count as nat, ..old(self)@ }),
    {
        self.advertised_count = count;
    }

    /// The game hosts a world, which may not have said what it is. Says what is to be done where the
    /// server does not know the world as it is.
    pub fn game_hosting(&mut self, world: Option<(u64, ServerAdvertisement)>) -> (r: Option<
        HostUpdate,
    >)
        requires
            old(self).wf(),
        ensures
            final(self).wf(),
            ({
                let shown = match world {
                    Some((game_id, ad)) => ad@,
                    None => default_world(old(self)@.network_id),
                };
                let known = with_game(
                    old(self)@,
                    match world {
                        Some((game_id, ad)) => Some(game_id),
                        None => None,
                    },
                );
                match r {
                    Some(update) => {
                        &&& host_changed(old(self)@, shown)
                        &&& final(self)@ == (ClientModel { advertised_count: 0, ..known })
                        &&& update.clear_advertised == (old(self)@.advertised_count > 0)
                        &&& update.advertisement@ == shown
                        &&& update.message matches ClientMessage::UpdateHost(s)
                            ==> old(self)@.hosting_registered && s.sender_id
                            == old(self)@.network_id && s.data@ == shown
                        &&& update.message matches ClientMessage::RegisterHost(s)
                            ==> !old(self)@.hosting_registered && s.sender_id
                            == old(self)@.network_id && s.data@ == shown
                        &&& update.message is UpdateHost || update.message is RegisterHost
                    },
                    None => !host_changed(old(self)@, shown) && final(self)@ == known,
                }
            }),
    {
        let ad = match world {
            Some((game_id, ad)) => {
                self.local_game_id = Some(game_id);
                ad
            },
            None => {
                let mut session_id = String::new();
                push_hex16(&mut session_id, self.network_id, 16);
                assert(session_id@ =~= hex16(self.network_id as nat, 16));
                ServerAdvertisement { session_id, ..ServerAdvertisement::default() }
            },
        };
        let same = match &self.registered {
            Some(registered) => *registered == ad,
            None => false,
        };
        if self.hosting_registered && same {
            return None;
        }
        let clear_advertised = self.advertised_count > 0;
        self.advertised_count = 0;
        let server = AdvertisedServer { sender_id: self.network_id, data: ad.clone() };
        let message = if self.hosting_registered {
            ClientMessage::UpdateHost(server)
        } else {
            ClientMessage::RegisterHost(server)
        };
        Some(HostUpdate { clear_advertised, advertisement: ad, message })
    }

    /// The server was told of the hosted world, or the connection was lost over it.
    pub fn host_told(&mut self, ad: ServerAdvertisement, is_connected: bool)
        requires
            old(self).wf(),
        ensures
            final(self).wf(),
            final(self)@ == (if is_connected {
                ClientModel { hosting_registered: true, registered: Some(ad@), ..old(self)@ }
            } else {
                unregistered(old(self)@)
            }),
    {
        self.hosting_registered = is_connected;
        self.registered = if is_connected {
            Some(ad)
        } else {
            None
        };
    }

    /// Takes in a signal that was heard locally: the sender's network id, the connection, and the
    /// advertised id that the connection is meant for, if it is known. Gives the id that the signal
    /// is addressed to at the server, if it is to be forwarded; the connection of one that goes to
    /// another's world is remembered.
    pub fn forward_signal(&mut self, sender: u64, connection_id: u64, target: Option<u64>) -> (r:
        Option<u64>)
        requires
            old(self).wf(),
        ensures
            final(self).wf(),
            r == forward_target(old(self)@, sender, target),
            ({
                let joins = sender != old(self)@.network_id && old(self)@.local_game_id != Some(
                    sender,
                ) && target is Some;
                &&& final(self)@ == (ClientModel {
                    join_conns: final(self)@.join_conns,
                    ..old(self)@
                })
                &&& joins ==> remembers(
                    old(self)@.join_conns,
                    final(self)@.join_conns,
                    connection_id,
                    JoinConn { game_id: sender, target_id: target->0 },
                )
                &&& !joins ==> final(self)@.join_conns == old(self)@.join_conns
            }),
    {
        if sender == self.network_id {
            return None;
        }
        if let Some(game_id) = self.local_game_id {
            if game_id == sender {
                return Some(0);
            }
        }
        match target {
            Some(target_id) => {
                self.remember(connection_id, JoinConn { game_id: sender, target_id });
                Some(target_id)
            },
            None => None,
        }
    }

    /// Remembers a join connection.
    fn remember(&mut self, connection_id: u64, conn: JoinConn)
        requires
            old(self).wf(),
        ensures
            final(self).wf(),
            final(self)@ == (ClientModel { join_conns: final(self)@.join_conns, ..old(self)@ }),
            remembers(old(self)@.join_conns, final(self)@.join_conns, connection_id, conn),
    {
        let ghost before = self@.join_conns;
        if self.join_conns.len() >= MAX_JOIN_CONNS {
            let ids = keys_of(&self.join_conns);
            assert(ids@.to_set().contains(ids@[0]));
            let forgotten = ids[0];
            self.join_conns.remove(&forgotten);
            assert(before.contains_key(forgotten));
        }
        self.join_conns.insert(connection_id, conn);
    }

    /// As whom and to whom a signal of the server is handed to the local game, if there is a way.
    pub fn inject_signal(&self, connection_id: u64, joiner_network_id: u64) -> (r: Option<
        Injection,
    >)
        ensures
            r == injection(self@, connection_id, joiner_network_id),
    {
        match self.join_conns.get(&connection_id) {
            Some(conn) => Some(Injection { sender: conn.target_id, recipient: conn.game_id }),
            None => match self.local_game_id {
                Some(game_id) => Some(
                    Injection { sender: joiner_network_id, recipient: game_id },
                ),
                None => None,
            },
        }
    }
}

/// An answer finds its way back: what the server sends on a connection that the local game opened
/// is handed to that game, as if it came from the world that it wants to join.
pub proof fn answer_finds_the_game(
    m: ClientModel,
    after: Map<u64, JoinConn>,
    connection_id: u64,
    sender: u64,
    target: u64,
    joiner_network_id: u64,
)
    requires
        remembers(
            m.join_conns,
            after,
            connection_id,
            JoinConn { game_id: sender, target_id: target },
        ),
    ensures
        injection(
            ClientModel { join_conns: after, ..m },
            connection_id,
            joiner_network_id,
        ) == Some(Injection { sender: target, recipient: sender }),
{
}

/// While the game browses nothing is handed to it but what belongs to a connection that it opened.
pub proof fn browsing_game_gets_only_answers(
    m: ClientModel,
    connection_id: u64,
    joiner_network_id: u64,
)
    requires
        !m.join_conns.contains_key(connection_id),
    ensures
        injection(
            ClientModel { local_game_id: None, ..unregistered(m) },
            connection_id,
            joiner_network_id,
        ) is None,
{
}

/// The server is told of a hosted world once: not again while the world stays as it is.
pub proof fn told_world_is_not_told_again(m: ClientModel, world: AdvertisementModel)
    ensures
        !host_changed(
            ClientModel { hosting_registered: true, registered: Some(world), ..m },
            world,
        ),
        host_changed(unregistered(m), world),
{
}

/// The server is told of a hosted world exactly where it does not know that the node hosts, or knows
/// the world otherwise than it is, in whatever detail: a name, a mode, a count, a flag, the session or
/// how to connect.
pub proof fn server_is_told_of_every_change(m: ClientModel, world: AdvertisementModel)
    ensures
        host_changed(m, world) <==> {
            ||| !m.hosting_registered
            ||| m.registered is None
            ||| m.registered->0.server_name != world.server_name
            ||| m.registered->0.level_name != world.level_name
            ||| m.registered->0.game_type != world.game_type
            ||| m.registered->0.player_count != world.player_count
            ||| m.registered->0.max_player_count != world.max_player_count
            ||| m.registered->0.editor_world != world.editor_world
            ||| m.registered->0.hardcore != world.hardcore
            ||| m.registered->0.flag_a != world.flag_a
            ||| m.registered->0.flag_b != world.flag_b
            ||| m.registered->0.session_id != world.session_id
            ||| m.registered->0.transport_layer != world.transport_layer
            ||| m.registered->0.connection_type != world.connection_type
        },
{
    if m.registered is Some {
        let known = m.registered->0;
        if known.server_name == world.server_name && known.level_name == world.level_name
            && known.game_type == world.game_type && known.player_count == world.player_count
            && known.max_player_count == world.max_player_count && known.editor_world
            == world.editor_world && known.hardcore == world.hardcore && known.flag_a
            == world.flag_a && known.flag_b == world.flag_b && known.session_id
            == world.session_id && known.transport_layer == world.transport_layer
            && known.connection_type == world.connection_type {
            assert(known == world);
        }
    }
}

/// What stays as the node learns which game hosts: all but that game's id, which is the one it is
/// told, or the one it had where it is told none.
pub proof fn learning_the_game_changes_only_its_id(m: ClientModel, game_id: u64)
    ensures
        with_game(m, None) == m,
        with_game(m, Some(game_id)).local_game_id == Some(game_id),
        with_game(m, Some(game_id)).network_id == m.network_id,
        with_game(m, Some(game_id)).hosting_registered == m.hosting_registered,
        with_game(m, Some(game_id)).registered == m.registered,
        with_game(m, Some(game_id)).advertised_count == m.advertised_count,
        with_game(m, Some(game_id)).join_conns == m.join_conns,
        with_game(m, Some(game_id)).last_seen == m.last_seen,
        with_game(m, Some(game_id)).last_ping == m.last_ping,
{
}

/// A node that hosts no more has told the server of no world, and is otherwise as it was.
pub proof fn withdrawn_world_is_forgotten(m: ClientModel)
    ensures
        !unregistered(m).hosting_registered,
        unregistered(m).registered is None,
        unregistered(m).network_id == m.network_id,
        unregistered(m).local_game_id == m.local_game_id,
        unregistered(m).advertised_count == m.advertised_count,
        unregistered(m).join_conns == m.join_conns,
        unregistered(m).last_seen == m.last_seen,
        unregistered(m).last_ping == m.last_ping,
{
}

spec fn power_of_sixteen(digits: nat) -> nat
    decreases digits,
{
    if digits == 0 {
        1
    } else {
        16 * power_of_sixteen((digits - 1) as nat)
    }
}

proof fn digits_stand_for_the_number(n: nat, digits: nat)
    requires
        n < power_of_sixteen(digits),
    ensures
        text::hex_value(hex16(n, digits)) == n,
    decreases digits,
{
    if digits > 0 {
        let fewer = (digits - 1) as nat;
        assert(n / 16 < power_of_sixteen(fewer));
        digits_stand_for_the_number(n / 16, fewer);
        let s = hex16(n, digits);
        assert(s.drop_last() =~= hex16(n / 16, fewer));
        assert(s.last() == text::hex_digit(n % 16));
    } else {
        assert(hex16(n, 0).len() == 0);
    }
}

/// A world that did not say what it is is shown as one of the node's own: its session is the node's
/// network id, in sixteen hexadecimal digits.
pub proof fn unnamed_world_is_the_nodes_own(network_id: u64)
    ensures
        ({
            let world = default_world(network_id);
            &&& world.server_name == "mineshaft"@
            &&& world.level_name == "mineshaft world"@
            &&& world.game_type == 0
            &&& world.player_count == 1
            &&& world.max_player_count == 8
            &&& !world.editor_world
            &&& !world.hardcore
            &&& world.flag_a
            &&& world.flag_b
            &&& world.session_id.len() == 16
            &&& text::hex_value(world.session_id) == network_id
            &&& world.transport_layer == 2
            &&& world.connection_type == 4
        }),
{
    hex16_has_its_length(network_id as nat, 16);
    reveal_with_fuel(power_of_sixteen, 17);
    assert(power_of_sixteen(16) == 0x1_0000_0000_0000_0000);
    digits_stand_for_the_number(network_id as nat, 16);
}

/// A join connection that is remembered is there as it is. No other appears or changes, at most one
/// goes, and none as long as there are fewer than 1024; there are never more than that.
pub proof fn remembering_costs_at_most_one(
    before: Map<u64, JoinConn>,
    after: Map<u64, JoinConn>,
    connection_id: u64,
    conn: JoinConn,
    a: u64,
    b: u64,
)
    requires
        before.dom().finite(),
        before.dom().len() <= 1024,
        remembers(before, after, connection_id, conn),
    ensures
        after.contains_key(connection_id),
        after[connection_id] == conn,
        a != connection_id && after.contains_key(a) ==> before.contains_key(a) && after[a]
            == before[a],
        before.dom().len() < 1024 && before.contains_key(a) ==> after.contains_key(a),
        before.contains_key(a) && before.contains_key(b) && !after.contains_key(a)
            && !after.contains_key(b) ==> a == b,
        after.dom().len() <= 1024,
{
    if before.dom().len() < 1024 {
        assert(after.dom() =~= before.dom().insert(connection_id));
    } else {
        let forgotten = choose|forgotten: u64| #[trigger]
            before.contains_key(forgotten) && after == before.remove(forgotten).insert(
                connection_id,
                conn,
            );
        assert(after.dom() =~= before.dom().remove(forgotten).insert(connection_id));
    }
}

/// Whose signals go where at the local game: one on a connection that it opened comes from the world
/// it wants to join and goes to whoever opened it; any other comes from the joiner and goes to the
/// game that hosts, and nowhere if none does.
pub proof fn signals_are_handed_to_the_right_game(
    m: ClientModel,
    connection_id: u64,
    joiner_network_id: u64,
)
    ensures
        ({
            let handed = injection(m, connection_id, joiner_network_id);
            &&& m.join_conns.contains_key(connection_id) ==> {
                &&& handed is Some
                &&& handed->0.sender == m.join_conns[connection_id].target_id
                &&& handed->0.recipient == m.join_conns[connection_id].game_id
            }
            &&& !m.join_conns.contains_key(connection_id) && m.local_game_id is Some ==> {
                &&& handed is Some
                &&& handed->0.sender == joiner_network_id
                &&& handed->0.recipient == m.local_game_id->0
            }
            &&& !m.join_conns.contains_key(connection_id) && m.local_game_id is None ==> handed
                is None
        }),
{
}

/// Which signals are forwarded and to whom: never the node's own; those of the game that hosts, with
/// no world named; those of any other, to the world that they are meant for, if that is known.
pub proof fn signals_are_forwarded_by_their_sender(
    m: ClientModel,
    sender: u64,
    target: Option<u64>,
)
    ensures
        sender == m.network_id ==> forward_target(m, sender, target) is None,
        sender != m.network_id && m.local_game_id is Some && m.local_game_id->0 == sender
            ==> forward_target(m, sender, target) == Some(0u64),
        sender != m.network_id && (m.local_game_id is None || m.local_game_id->0 != sender)
            ==> forward_target(m, sender, target) == target,
{
}

proof fn first_flag_is_found(args: Seq<Seq<char>>, from: int, i: int)
    requires
        0 <= from <= i < args.len(),
        args[i] == "--server"@,
        forall|j: int| from <= j < i ==> #[trigger] args[j] != "--server"@,
    ensures
        server_flag(args, from) == Some(i),
    decreases i - from,
{
    if from < i {
        first_flag_is_found(args, from + 1, i);
    }
}

proof fn flag_is_in_the_list(args: Seq<Seq<char>>, from: int)
    requires
        0 <= from,
    ensures
        server_flag(args, from) is Some ==> from <= server_flag(args, from)->0 < args.len()
            && args[server_flag(args, from)->0] == "--server"@,
    decreases args.len() - from,
{
    if from < args.len() && args[from] != "--server"@ {
        flag_is_in_the_list(args, from + 1);
    }
}

proof fn first_plain_is_found(args: Seq<Seq<char>>, from: int, k: int)
    requires
        0 <= from <= k <= args.len(),
        k < args.len() ==> args[k].len() == 0 || args[k][0] != '-',
        forall|j: int|
            from <= j < k ==> (#[trigger] args[j]).len() > 0 && args[j][0] == '-',
    ensures
        first_plain(args, from) == if k < args.len() {
            Some(args[k])
        } else {
            None
        },
    decreases k - from,
{
    if from < k {
        first_plain_is_found(args, from + 1, k);
    }
}

/// What follows the first `--server` is the server's address, whatever else was said.
pub proof fn named_server_is_taken(args: Seq<Seq<char>>, env: Option<Seq<char>>, i: int)
    requires
        0 <= i < args.len() - 1,
        args[i] == "--server"@,
        forall|j: int| 0 <= j < i ==> #[trigger] args[j] != "--server"@,
    ensures
        server_addr(args, env) == args[i + 1],
{
    first_flag_is_found(args, 0, i);
}

/// Where nothing follows a `--server`, the first argument behind the program's name that does not
/// begin with a dash is the server's address.
pub proof fn plain_argument_is_taken(args: Seq<Seq<char>>, env: Option<Seq<char>>, k: int)
    requires
        forall|j: int| 0 <= j < args.len() - 1 ==> #[trigger] args[j] != "--server"@,
        1 <= k < args.len(),
        args[k].len() == 0 || args[k][0] != '-',
        forall|j: int| 1 <= j < k ==> (#[trigger] args[j]).len() > 0 && args[j][0] == '-',
    ensures
        server_addr(args, env) == args[k],
{
    flag_is_in_the_list(args, 0);
    first_plain_is_found(args, 1, k);
}

/// Where no argument names a server, the environment does, and if it does not either, the server is
/// taken to be on this machine.
pub proof fn environment_is_asked_last(args: Seq<Seq<char>>, env: Option<Seq<char>>)
    requires
        forall|j: int| 0 <= j < args.len() - 1 ==> #[trigger] args[j] != "--server"@,
        forall|j: int|
            1 <= j < args.len() ==> (#[trigger] args[j]).len() > 0 && args[j][0] == '-',
    ensures
        env is Some && env->0.len() > 0 ==> server_addr(args, env) == env->0,
        env is None || env->0.len() == 0 ==> server_addr(args, env) == "127.0.0.1:25000"@,
{
    flag_is_in_the_list(args, 0);
    if args.len() > 0 {
        first_plain_is_found(args, 1, args.len() as int);
    }
}

/// What the server was told is kept as it was.
pub proof fn told_world_is_seen_as_it_is(ad: ServerAdvertisement)
    ensures
        advertisement_view(None) is None,
        advertisement_view(Some(ad)) == Some(ad@),
{
}

} // verus!
