//! The tunnel between the local game and the relay.

use std::collections::HashMap;

use vstd::prelude::*;

use crate::addr;
use crate::addr::{IpAddr, SocketAddr};
use crate::datagram::Outgoing;
use crate::io_error::IoError;
use crate::lan::access;
use crate::lan::access::{AccessControl, AccessModel};
use crate::lan::manager;
use crate::lan::manager::{ManagerModel, RemoteModel, RemoteServer, ServerManager};
use crate::maps;
use crate::maps::keys_of;
use crate::server::protocol;
use crate::server::protocol::MineshaftHeader;
use crate::server::relay;
use crate::time;
use crate::time::{Duration, Instant};

verus! {

broadcast use vstd::std_specs::hash::group_hash_axioms;

/// What happens to the players of the local world.
#[derive(Debug, PartialEq, Eq)]
pub enum TunnelEvent {
    ClientConnecting(u32),
    ClientDisconnected(u32),
    PlayersActive(Vec<u32>),
}

/// A [`TunnelEvent`] as mathematical values.
pub enum TunnelEventModel {
    ClientConnecting(u32),
    ClientDisconnected(u32),
    PlayersActive(Seq<u32>),
}

impl View for TunnelEvent {
    type V = TunnelEventModel;

    open spec fn view(&self) -> TunnelEventModel {
        match *self {
            TunnelEvent::ClientConnecting(id) => TunnelEventModel::ClientConnecting(id),
            TunnelEvent::ClientDisconnected(id) => TunnelEventModel::ClientDisconnected(id),
            TunnelEvent::PlayersActive(ids) => TunnelEventModel::PlayersActive(ids@),
        }
    }
}

impl Clone for TunnelEvent {
    fn clone(&self) -> (r: Self)
        ensures
            r@ == self@,
    {
        match self {
            TunnelEvent::ClientConnecting(id) => TunnelEvent::ClientConnecting(*id),
            TunnelEvent::ClientDisconnected(id) => TunnelEvent::ClientDisconnected(*id),
            TunnelEvent::PlayersActive(ids) => {
                let copy = ids.clone();
                assert(copy@ =~= ids@);
                TunnelEvent::PlayersActive(copy)
            },
        }
    }
}

/// What a tunnel is started with.
#[derive(Clone, Copy, Debug, PartialEq, Eq, Structural)]
pub struct TunnelConfig {
    pub my_client_id: u32,
    pub relay_addr: SocketAddr,
    pub local_minecraft_addr: SocketAddr,
    pub bind_addr: SocketAddr,
    pub keepalive_interval: Duration,
    /// A player who has been silent for longer than this is dropped.
    pub session_timeout: Duration,
}

impl Default for TunnelConfig {
    fn default() -> (r: Self)
        ensures
            r.my_client_id == 0,
            addr::is_loopback_at(r.relay_addr, 19999),
            addr::is_loopback_at(r.local_minecraft_addr, 19132),
            r.bind_addr == (SocketAddr::V4 { ip: 0, port: 0 }),
            r.keepalive_interval.nanos == 25_000_000_000,
            r.session_timeout.nanos == 30_000_000_000,
    {
        TunnelConfig {
            my_client_id: 0,
            relay_addr: SocketAddr::new(IpAddr::v4(127, 0, 0, 1), 19999),
            local_minecraft_addr: SocketAddr::new(IpAddr::v4(127, 0, 0, 1), 19132),
            bind_addr: SocketAddr::new(IpAddr::v4(0, 0, 0, 0), 0),
            keepalive_interval: Duration::from_secs(25),
            session_timeout: Duration::from_secs(30),
        }
    }
}

/// A player in the local world, who has a socket of their own towards the local game, so that the
/// game tells players apart.
#[derive(Clone, Copy, Debug, PartialEq, Eq, Structural)]
pub struct HostPeerSession {
    pub peer_client_id: u32,
    pub last_activity: Instant,
}

/// Why a datagram from the relay goes nowhere.
#[derive(Clone, Copy, Debug, PartialEq, Eq, Structural)]
pub enum IgnoreReason {
    /// It does not hold a header.
    Malformed,
    /// It is addressed to another client.
    OtherTarget,
    /// It is the relay's answer to a handshake.
    Keepalive,
    /// It comes from a world that no local client has talked to yet.
    NoLocalClient,
    /// It comes from a blocked client, or from a player who may not join.
    Denied,
}

/// What is to be done about a datagram from the relay.
#[derive(Debug)]
pub enum TunnelAction {
    Ignore(IgnoreReason),
    /// A joined world answers: the payload goes to the local client through that world's socket.
    ToClient { server: u32, to: SocketAddr, payload: Vec<u8> },
    /// A known player: the payload goes to the local game through the player's socket.
    ToHost { peer: u32, to: SocketAddr, payload: Vec<u8> },
    /// A new player: the event is announced, and once a socket is bound for the player the session
    /// is opened and the payload goes to the local game through it.
    Connect { event: TunnelEvent, peer: u32, to: SocketAddr, payload: Vec<u8> },
}

/// A [`TunnelAction`] as mathematical values.
pub enum TunnelActionModel {
    Ignore(IgnoreReason),
    ToClient { server: u32, to: SocketAddr, payload: Seq<u8> },
    ToHost { peer: u32, to: SocketAddr, payload: Seq<u8> },
    Connect { event: TunnelEventModel, peer: u32, to: SocketAddr, payload: Seq<u8> },
}

impl View for TunnelAction {
    type V = TunnelActionModel;

    open spec fn view(&self) -> TunnelActionModel {
        match *self {
            TunnelAction::Ignore(reason) => TunnelActionModel::Ignore(reason),
            TunnelAction::ToClient { server, to, payload } => TunnelActionModel::ToClient {
                server,
                to,
                payload: payload@,
            },
            TunnelAction::ToHost { peer, to, payload } => TunnelActionModel::ToHost {
                peer,
                to,
                payload: payload@,
            },
            TunnelAction::Connect { event, peer, to, payload } => TunnelActionModel::Connect {
                event: event@,
                peer,
                to,
                payload: payload@,
            },
        }
    }
}

/// What a running tunnel is woken by.
pub enum TunnelInput<'a> {
    Shutdown,
    KeepaliveTick,
    CleanupTick,
    RelayDatagram(&'a [u8]),
    ReceiveFailed,
}

/// What a running tunnel does next.
#[derive(Debug)]
pub enum TunnelStep {
    /// The tunnel ends.
    Stop,
    Send(Outgoing),
    /// The events are announced; the sockets of disconnected players are closed.
    Announce(Vec<TunnelEvent>),
    Act(TunnelAction),
}

/// What a forwarder from a local socket to the relay is woken by.
pub enum ForwarderInput<'a> {
    Shutdown,
    /// The world or the player that it serves is gone.
    Removed,
    Datagram { bytes: &'a [u8], from: SocketAddr },
    ReceiveFailed,
}

/// What a forwarder does next.
#[derive(Debug)]
pub enum ForwarderStep {
    Stop,
    Send(Outgoing),
}

/// A packet from one client to another.
pub open spec fn addressed(to: u32, from: u32, payload: Seq<u8>) -> Seq<u8> {
    protocol::packet_bytes(
        MineshaftHeader { target_session_id: to, sender_session_id: from },
        payload,
    )
}

/// What is to be done about a datagram from the relay.
pub open spec fn action_on(
    config: TunnelConfig,
    sessions: Map<u32, HostPeerSession>,
    worlds: Map<u32, RemoteModel>,
    access: AccessModel,
    data: Seq<u8>,
) -> TunnelActionModel {
    let header = relay::header_of(data);
    let payload = data.skip(8);
    let sender = header.sender_session_id;
    if data.len() < protocol::MINESHAFT_HEADER_LEN {
        TunnelActionModel::Ignore(IgnoreReason::Malformed)
    } else if header.target_session_id != config.my_client_id {
        TunnelActionModel::Ignore(IgnoreReason::OtherTarget)
    } else if payload.len() == 0 {
        TunnelActionModel::Ignore(IgnoreReason::Keepalive)
    } else if access.blocked.contains(sender) {
        TunnelActionModel::Ignore(IgnoreReason::Denied)
    } else if worlds.contains_key(sender) {
        match worlds[sender].last_client_addr {
            Some(to) => TunnelActionModel::ToClient { server: sender, to, payload },
            None => TunnelActionModel::Ignore(IgnoreReason::NoLocalClient),
        }
    } else if !access::allows(access, sender) {
        TunnelActionModel::Ignore(IgnoreReason::Denied)
    } else if sessions.contains_key(sender) {
        TunnelActionModel::ToHost { peer: sender, to: config.local_minecraft_addr, payload }
    } else {
        TunnelActionModel::Connect {
            event: TunnelEventModel::ClientConnecting(sender),
            peer: sender,
            to: config.local_minecraft_addr,
            payload,
        }
    }
}

/// The players with one of them seen just now.
pub open spec fn seen(
    sessions: Map<u32, HostPeerSession>,
    peer: u32,
    now: Instant,
) -> Map<u32, HostPeerSession> {
    sessions.insert(peer, HostPeerSession { peer_client_id: peer, last_activity: now })
}

/// The players after an action was chosen: only one who is known already was seen.
pub open spec fn sessions_after(
    sessions: Map<u32, HostPeerSession>,
    action: TunnelActionModel,
    now: Instant,
) -> Map<u32, HostPeerSession> {
    match action {
        TunnelActionModel::ToHost { peer, to, payload } => seen(sessions, peer, now),
        _ => sessions,
    }
}

/// The players who have not been silent for too long.
pub open spec fn active_sessions(
    sessions: Map<u32, HostPeerSession>,
    now: Instant,
    timeout: Duration,
) -> Map<u32, HostPeerSession> {
    sessions.filter_keys(|id: u32| !time::timed_out(sessions[id].last_activity, now, timeout))
}

/// The views of some events.
pub open spec fn event_views(events: Seq<TunnelEvent>) -> Seq<TunnelEventModel> {
    events.map_values(|e: TunnelEvent| e@)
}

/// Whether the events say that the first players are gone, each once, and then who is left, each
/// once.
pub open spec fn announces(
    events: Seq<TunnelEventModel>,
    gone: Set<u32>,
    active: Set<u32>,
) -> bool {
    exists|departed: Seq<u32>, left: Seq<u32>|
        {
            &&& #[trigger] maps::lists(departed, gone)
            &&& #[trigger] maps::lists(left, active)
            &&& events == departures(departed).push(TunnelEventModel::PlayersActive(left))
        }
}

/// One event for each departed player.
pub open spec fn departures(ids: Seq<u32>) -> Seq<TunnelEventModel> {
    ids.map_values(|id: u32| TunnelEventModel::ClientDisconnected(id))
}

/// The tunnel's settings and the players in the local world.
pub struct TunnelEngine {
    config: TunnelConfig,
    host_sessions: HashMap<u32, HostPeerSession>,
}

impl View for TunnelEngine {
    type V = Map<u32, HostPeerSession>;

    closed spec fn view(&self) -> Map<u32, HostPeerSession> {
        self.host_sessions@
    }
}

impl TunnelEngine {
    /// What the tunnel was started with.
    pub closed spec fn settings(&self) -> TunnelConfig {
        self.config
    }

    /// A tunnel without players. No interval may be zero.
    pub fn bind(config: TunnelConfig) -> (r: Result<Self, IoError>)
        ensures
            match r {
                Ok(engine) => {
                    &&& config.keepalive_interval.nanos != 0 && config.session_timeout.nanos != 0
                    &&& engine.settings() == config
                    &&& engine@ == Map::<u32, HostPeerSession>::empty()
                },
                Err(e) => {
                    &&& config.keepalive_interval.nanos == 0 || config.session_timeout.nanos == 0
                    &&& e.refuses("tunnel intervals must be greater than zero"@)
                },
            },
    {
        if config.keepalive_interval.is_zero() || config.session_timeout.is_zero() {
            return Err(IoError::InvalidInput("tunnel intervals must be greater than zero"));
        }
        Ok(TunnelEngine { config, host_sessions: HashMap::new() })
    }

    pub fn config(&self) -> (r: TunnelConfig)
        ensures
            r == self.settings(),
    {
        self.config
    }

    /// The handshake that goes to the relay: the eight bytes of the client id, twice.
    pub fn send_handshake(&self) -> (r: Outgoing)
        ensures
            r.to == self.settings().relay_addr,
            r.bytes@ == addressed(
                self.settings().my_client_id,
                self.settings().my_client_id,
                Seq::empty(),
            ),
    {
        let hello = MineshaftHeader::handshake(self.config.my_client_id);
        let empty: [u8; 0] = [];
        assert(empty@ =~= Seq::<u8>::empty());
        Outgoing { to: self.config.relay_addr, bytes: hello.encapsulate(empty.as_slice()) }
    }

    /// What a local client sent to a remote world, on its way to the world's relay.
    pub fn client_packet(&self, remote: &RemoteServer, payload: &[u8]) -> (r: Outgoing)
        ensures
            r.to == remote.relay_addr,
            r.bytes@ == addressed(
                remote.target_client_id,
                self.settings().my_client_id,
                payload@,
            ),
    {
        let header = MineshaftHeader::new(remote.target_client_id, self.config.my_client_id);
        Outgoing { to: remote.relay_addr, bytes: header.encapsulate(payload) }
    }

    /// What the local game answered a player, on its way to the relay.
    pub fn host_reply(&self, peer_client_id: u32, payload: &[u8]) -> (r: Outgoing)
        ensures
            r.to == self.settings().relay_addr,
            r.bytes@ == addressed(peer_client_id, self.settings().my_client_id, payload@),
    {
        let header = MineshaftHeader::new(peer_client_id, self.config.my_client_id);
        Outgoing { to: self.config.relay_addr, bytes: header.encapsulate(payload) }
    }

    /// One turn of the forwarder behind a remote world's local port. The client that sent the
    /// datagram is remembered of that very world, for what comes back: a world that has taken its
    /// place does not learn of it.
    pub fn client_forwarder_step(
        &self,
        manager: &mut ServerManager,
        remote: &mut RemoteServer,
        input: ForwarderInput,
    ) -> (r: ForwarderStep)
        requires
            old(manager).wf(),
        ensures
            final(manager).wf(),
            match input {
                ForwarderInput::Datagram { bytes, from } => {
                    &&& r matches ForwarderStep::Send(out) && out.to == old(remote).relay_addr
                        && out.bytes@ == addressed(
                        old(remote).target_client_id,
                        self.settings().my_client_id,
                        bytes@,
                    )
                    &&& final(manager)@ == client_noted(old(manager)@, old(remote)@, from)
                    &&& final(remote)@ == (RemoteModel {
                        last_client_addr: Some(from),
                        ..old(remote)@
                    })
                },
                _ => {
                    &&& r is Stop
                    &&& final(manager)@ == old(manager)@
                    &&& final(remote)@ == old(remote)@
                },
            },
    {
        match input {
            ForwarderInput::Datagram { bytes, from } => {
                remote.last_client_addr = Some(from);
                manager.note_client(remote.target_client_id, remote.serial, from);
                ForwarderStep::Send(self.client_packet(remote, bytes))
            },
            ForwarderInput::Shutdown => ForwarderStep::Stop,
            ForwarderInput::Removed => ForwarderStep::Stop,
            ForwarderInput::ReceiveFailed => ForwarderStep::Stop,
        }
    }

    /// One turn of the forwarder behind a player's socket towards the local game.
    pub fn host_forwarder_step(&self, peer_client_id: u32, input: ForwarderInput) -> (r:
        ForwarderStep)
        ensures
            match input {
                ForwarderInput::Datagram { bytes, from } => {
                    r matches ForwarderStep::Send(out) && out.to == self.settings().relay_addr
                        && out.bytes@ == addressed(
                        peer_client_id,
                        self.settings().my_client_id,
                        bytes@,
                    )
                },
                _ => r is Stop,
            },
    {
        match input {
            ForwarderInput::Datagram { bytes, from: _ } => ForwarderStep::Send(
                self.host_reply(peer_client_id, bytes),
            ),
            ForwarderInput::Shutdown => ForwarderStep::Stop,
            ForwarderInput::Removed => ForwarderStep::Stop,
            ForwarderInput::ReceiveFailed => ForwarderStep::Stop,
        }
    }

    /// Takes in a datagram from the relay and says what is to be done about it. Nothing from a
    /// blocked client goes anywhere, not even from a world that was joined.
    pub fn handle_relay_datagram(
        &mut self,
        manager: &ServerManager,
        access_control: &AccessControl,
        data: &[u8],
        now: Instant,
    ) -> (r: TunnelAction)
        ensures
            final(self).settings() == old(self).settings(),
            r@ == action_on(
                old(self).settings(),
                old(self)@,
                manager@.servers,
                access_control@,
                data@,
            ),
            final(self)@ == sessions_after(old(self)@, r@, now),
    {
        let (header, payload) = match MineshaftHeader::decode(data) {
            Ok(parts) => parts,
            Err(_) => {
                return TunnelAction::Ignore(IgnoreReason::Malformed);
            },
        };
        assert(header == relay::header_of(data@));
        if header.target_session_id != self.config.my_client_id {
            return TunnelAction::Ignore(IgnoreReason::OtherTarget);
        }
        if payload.len() == 0 {
            return TunnelAction::Ignore(IgnoreReason::Keepalive);
        }
        let sender = header.sender_session_id;
        if access_control.is_blocked(sender) {
            return TunnelAction::Ignore(IgnoreReason::Denied);
        }
        if let Some(remote) = manager.get_server(sender) {
            return match remote.last_client_addr {
                Some(to) => TunnelAction::ToClient {
                    server: sender,
                    to,
                    payload: vstd::slice::slice_to_vec(payload),
                },
                None => TunnelAction::Ignore(IgnoreReason::NoLocalClient),
            };
        }
        if !access_control.is_allowed(sender) {
            return TunnelAction::Ignore(IgnoreReason::Denied);
        }
        let to = self.config.local_minecraft_addr;
        if self.host_sessions.contains_key(&sender) {
            self.open_host_session(sender, now);
            TunnelAction::ToHost { peer: sender, to, payload: vstd::slice::slice_to_vec(payload) }
        } else {
            TunnelAction::Connect {
                event: TunnelEvent::ClientConnecting(sender),
                peer: sender,
                to,
                payload: vstd::slice::slice_to_vec(payload),
            }
        }
    }

    /// Takes in a player whose socket was bound, or notes that one is active.
    pub fn open_host_session(&mut self, peer_client_id: u32, now: Instant)
        ensures
            final(self).settings() == old(self).settings(),
            final(self)@ == seen(old(self)@, peer_client_id, now),
    {
        self.host_sessions.insert(
            peer_client_id,
            HostPeerSession { peer_client_id, last_activity: now },
        );
    }

    /// Drops the players who have been silent for too long, and says who went and who is left.
    pub fn cleanup(&mut self, now: Instant) -> (r: Vec<TunnelEvent>)
        ensures
            final(self).settings() == old(self).settings(),
            final(self)@ == active_sessions(
                old(self)@,
                now,
                old(self).settings().session_timeout,
            ),
            announces(
                event_views(r@),
                old(self)@.dom().difference(final(self)@.dom()),
                final(self)@.dom(),
            ),
    {
        let timeout = self.config.session_timeout;
        let ghost before = self@;
        let ghost silent = |id: u32| time::timed_out(before[id].last_activity, now, timeout);
        let ids = keys_of(&self.host_sessions);
        let mut events: Vec<TunnelEvent> = Vec::new();
        let ghost mut departed: Seq<u32> = Seq::empty();
        proof {
            maps::walk_begins(before, ids@, silent);
            assert(departed.to_set() =~= Set::<u32>::empty());
            assert(event_views(events@) =~= departures(departed));
        }
        for i in 0..ids.len()
            invariant
                self.settings() == old(self).settings(),
                timeout == self.settings().session_timeout,
                maps::lists(ids@, before.dom()),
                forall|id: u32| #[trigger]
                    silent(id) == time::timed_out(before[id].last_activity, now, timeout),
                self@ == maps::kept(before, ids@.take(i as int), silent),
                event_views(events@) == departures(departed),
                departed.no_duplicates(),
                departed.to_set() == before.dom().difference(self@.dom()),
        {
            let id = ids[i];
            let ghost done = departed;
            proof {
                maps::walk_goes_on(before, ids@, i as int, silent);
            }
            let seen_at: Option<Instant> = match self.host_sessions.get(&id) {
                Some(s) => Some(s.last_activity),
                None => None,
            };
            assert(seen_at == Some(before[id].last_activity));
            if let Some(last_activity) = seen_at {
                if now.timed_out(last_activity, timeout) {
                    let ghost told = event_views(events@);
                    assert(silent(id));
                    self.host_sessions.remove(&id);
                    events.push(TunnelEvent::ClientDisconnected(id));
                    proof {
                        maps::push_adds_to_set(done, id);
                        departed = done.push(id);
                        let news = TunnelEventModel::ClientDisconnected(id);
                        assert(event_views(events@) =~= told.push(news));
                        assert(departures(departed) =~= departures(done).push(news));
                    }
                }
            }
        }
        proof {
            maps::walk_ends(before, ids@, silent);
            assert(self@ =~= active_sessions(before, now, timeout));
            departed.unique_seq_to_set();
        }
        let active = keys_of(&self.host_sessions);
        let ghost left = active@;
        let ghost told = event_views(events@);
        events.push(TunnelEvent::PlayersActive(active));
        proof {
            assert(event_views(events@) =~= told.push(TunnelEventModel::PlayersActive(left)));
            assert(maps::lists(departed, before.dom().difference(self@.dom())));
            assert(maps::lists(left, self@.dom()));
        }
        events
    }

    /// One turn of a running tunnel.
    pub fn step(
        &mut self,
        manager: &ServerManager,
        access_control: &AccessControl,
        input: TunnelInput,
        now: Instant,
    ) -> (r: TunnelStep)
        ensures
            final(self).settings() == old(self).settings(),
            match input {
                TunnelInput::Shutdown | TunnelInput::ReceiveFailed => {
                    &&& r is Stop
                    &&& final(self)@ == old(self)@
                },
                TunnelInput::KeepaliveTick => {
                    &&& final(self)@ == old(self)@
                    &&& r matches TunnelStep::Send(out) && out.to
                        == old(self).settings().relay_addr && out.bytes@ == addressed(
                        old(self).settings().my_client_id,
                        old(self).settings().my_client_id,
                        Seq::empty(),
                    )
                },
                TunnelInput::CleanupTick => {
                    &&& final(self)@ == active_sessions(
                        old(self)@,
                        now,
                        old(self).settings().session_timeout,
                    )
                    &&& r matches TunnelStep::Announce(events) && announces(
                        event_views(events@),
                        old(self)@.dom().difference(final(self)@.dom()),
                        final(self)@.dom(),
                    )
                },
                TunnelInput::RelayDatagram(data) => {
                    &&& r matches TunnelStep::Act(action) && action@ == action_on(
                        old(self).settings(),
                        old(self)@,
                        manager@.servers,
                        access_control@,
                        data@,
                    ) && final(self)@ == sessions_after(old(self)@, action@, now)
                },
            },
    {
        match input {
            TunnelInput::Shutdown => TunnelStep::Stop,
            TunnelInput::ReceiveFailed => TunnelStep::Stop,
            TunnelInput::KeepaliveTick => TunnelStep::Send(self.send_handshake()),
            TunnelInput::CleanupTick => TunnelStep::Announce(self.cleanup(now)),
            TunnelInput::RelayDatagram(data) => TunnelStep::Act(
                self.handle_relay_datagram(manager, access_control, data, now),
            ),
        }
    }
}

/// The worlds after a local client talked to one of them, which may have gone or been replaced.
pub open spec fn client_noted(m: ManagerModel, remote: RemoteModel, client: SocketAddr) -> ManagerModel {
    let id = remote.target_client_id;
    if m.servers.contains_key(id) && m.servers[id].serial == remote.serial {
        ManagerModel {
            servers: m.servers.insert(
                id,
                RemoteModel { last_client_addr: Some(client), ..m.servers[id] },
            ),
            ..m
        }
    } else {
        m
    }
}

proof fn addressed_reads_back(to: u32, from: u32, payload: Seq<u8>)
    ensures
        addressed(to, from, payload).len() == protocol::MINESHAFT_HEADER_LEN + payload.len(),
        relay::header_of(addressed(to, from, payload)) == (MineshaftHeader {
            target_session_id: to,
            sender_session_id: from,
        }),
        addressed(to, from, payload).skip(8) == payload,
{
    let h = MineshaftHeader { target_session_id: to, sender_session_id: from };
    protocol::decode_inverts_encapsulate(h, payload);
    assert(addressed(to, from, payload).skip(8).len() == addressed(to, from, payload).len() - 8);
}

/// Nothing from a player who may not join, and nothing addressed to another client, reaches the
/// local game.
pub proof fn only_permitted_players_reach_the_game(
    config: TunnelConfig,
    sessions: Map<u32, HostPeerSession>,
    worlds: Map<u32, RemoteModel>,
    access: AccessModel,
    data: Seq<u8>,
)
    ensures
        ({
            let action = action_on(config, sessions, worlds, access, data);
            let header = relay::header_of(data);
            (action is ToHost || action is Connect) ==> {
                &&& access::allows(access, header.sender_session_id)
                &&& header.target_session_id == config.my_client_id
                &&& !worlds.contains_key(header.sender_session_id)
            }
        }),
{
}

/// A blocked client's packets are dropped, whatever they hold and whether the client is a player in
/// the local world, the host of a joined one or neither: nothing is sent, and no player is taken in
/// or counts as seen.
pub proof fn blocked_player_is_ignored(
    config: TunnelConfig,
    sessions: Map<u32, HostPeerSession>,
    worlds: Map<u32, RemoteModel>,
    access: AccessModel,
    data: Seq<u8>,
    now: Instant,
)
    requires
        access.blocked.contains(relay::header_of(data).sender_session_id),
    ensures
        ({
            let action = action_on(config, sessions, worlds, access, data);
            &&& action is Ignore
            &&& sessions_after(sessions, action, now) == sessions
        }),
{
}

/// What a player's client put into the tunnel comes out of it at the host as it was: a permitted
/// player's payload goes to the local game without the header.
pub proof fn host_receives_what_the_player_sent(
    config: TunnelConfig,
    sessions: Map<u32, HostPeerSession>,
    worlds: Map<u32, RemoteModel>,
    access: AccessModel,
    player: u32,
    payload: Seq<u8>,
)
    requires
        access::allows(access, player),
        !worlds.contains_key(player),
        payload.len() > 0,
    ensures
        ({
            let action = action_on(
                config,
                sessions,
                worlds,
                access,
                addressed(config.my_client_id, player, payload),
            );
            if sessions.contains_key(player) {
                action == (TunnelActionModel::ToHost {
                    peer: player,
                    to: config.local_minecraft_addr,
                    payload,
                })
            } else {
                action == (TunnelActionModel::Connect {
                    event: TunnelEventModel::ClientConnecting(player),
                    peer: player,
                    to: config.local_minecraft_addr,
                    payload,
                })
            }
        }),
{
    addressed_reads_back(config.my_client_id, player, payload);
}

/// The whole way of a player's packet: once the player's client and the host's have both shaken
/// hands with the relay, from different endpoints, what the one sends is forwarded to the other
/// unless the host's client has blocked it at the relay, and the host's game is handed the payload.
pub proof fn payload_crosses_the_relay(
    relay_state: relay::RelayModel,
    host: TunnelConfig,
    host_at: SocketAddr,
    player: u32,
    player_at: SocketAddr,
    now: Instant,
    sessions: Map<u32, HostPeerSession>,
    worlds: Map<u32, RemoteModel>,
    access: AccessModel,
    payload: Seq<u8>,
)
    requires
        host.my_client_id != player,
        host_at != player_at,
        !relay_state.blocked.contains((host.my_client_id, player)),
        access::allows(access, player),
        !worlds.contains_key(player),
        payload.len() > 0,
    ensures
        ({
            let hello_host = addressed(host.my_client_id, host.my_client_id, Seq::empty());
            let hello_player = addressed(player, player, Seq::empty());
            let packet = addressed(host.my_client_id, player, payload);
            let shaken = relay::after_datagram(
                relay::after_datagram(relay_state, hello_host, host_at, now),
                hello_player,
                player_at,
                now,
            );
            &&& relay::action_on(shaken, packet, player_at) == (relay::ActionModel::Forward {
                to: host_at,
                bytes: packet,
            })
            &&& match action_on(host, sessions, worlds, access, packet) {
                TunnelActionModel::ToHost { peer, to, payload: sent } => peer == player && to
                    == host.local_minecraft_addr && sent == payload,
                TunnelActionModel::Connect { event, peer, to, payload: sent } => peer == player
                    && to == host.local_minecraft_addr && sent == payload,
                _ => false,
            }
        }),
{
    let a = host.my_client_id;
    let hello_host = MineshaftHeader { target_session_id: a, sender_session_id: a };
    let hello_player = MineshaftHeader { target_session_id: player, sender_session_id: player };
    assert(addressed(a, a, Seq::empty()) == protocol::header_bytes(hello_host));
    assert(addressed(player, player, Seq::empty()) == protocol::header_bytes(hello_player));
    relay::registered_peers_are_connected(relay_state, a, host_at, player, player_at, now, payload);
    host_receives_what_the_player_sent(host, sessions, worlds, access, player, payload);
}

/// What a host's game answered comes out at the player as it was: once a local client has talked
/// to a joined world, the world's payload goes to that client without the header, unless the host is
/// blocked.
pub proof fn client_receives_what_the_host_sent(
    config: TunnelConfig,
    sessions: Map<u32, HostPeerSession>,
    m: ManagerModel,
    access: AccessModel,
    remote: RemoteModel,
    client: SocketAddr,
    payload: Seq<u8>,
)
    requires
        m.servers.contains_key(remote.target_client_id),
        m.servers[remote.target_client_id].serial == remote.serial,
        !access.blocked.contains(remote.target_client_id),
        payload.len() > 0,
    ensures
        action_on(
            config,
            sessions,
            client_noted(m, remote, client).servers,
            access,
            addressed(config.my_client_id, remote.target_client_id, payload),
        ) == (TunnelActionModel::ToClient {
            server: remote.target_client_id,
            to: client,
            payload,
        }),
{
    addressed_reads_back(config.my_client_id, remote.target_client_id, payload);
}

/// A client that talks to a world which was replaced or removed is not taken for one of the worlds
/// that are there, at whatever ports they are.
pub proof fn former_world_is_not_taken_for_another(
    m: ManagerModel,
    remote: RemoteModel,
    added: RemoteModel,
    client: SocketAddr,
)
    requires
        manager::serials_fresh(m),
        m.servers.contains_key(remote.target_client_id),
        m.servers[remote.target_client_id] == remote,
        added.target_client_id == remote.target_client_id,
        added.serial == m.next_serial,
    ensures
        client_noted(manager::with_server(m, added), remote, client) == manager::with_server(
            m,
            added,
        ),
        client_noted(
            manager::without_server(m, remote.target_client_id),
            remote,
            client,
        ) == manager::without_server(m, remote.target_client_id),
{
}

/// The relay's answer to a handshake is taken for nothing else.
pub proof fn handshake_answer_is_ignored(
    config: TunnelConfig,
    sessions: Map<u32, HostPeerSession>,
    worlds: Map<u32, RemoteModel>,
    access: AccessModel,
)
    ensures
        action_on(
            config,
            sessions,
            worlds,
            access,
            addressed(config.my_client_id, config.my_client_id, Seq::empty()),
        ) == TunnelActionModel::Ignore(IgnoreReason::Keepalive),
{
    addressed_reads_back(config.my_client_id, config.my_client_id, Seq::empty());
}

/// A player stays through every cleanup that comes no later than the timeout after they were seen.
pub proof fn active_player_stays(
    sessions: Map<u32, HostPeerSession>,
    player: u32,
    seen_at: Instant,
    now: Instant,
    timeout: Duration,
)
    requires
        now.nanos <= seen_at.nanos + timeout.nanos,
    ensures
        active_sessions(seen(sessions, player, seen_at), now, timeout).contains_key(player),
{
}

/// What becomes of any packet from the relay, by its two ids and its payload alone. One for another
/// client, and an empty one, go nowhere, and neither does one from a blocked sender. One from a
/// joined world goes to the client that talked to that world last. Any other goes to the local game,
/// if its sender may join, as that of a known player or of a new one.
pub proof fn relayed_packets_go_where_their_ids_say(
    config: TunnelConfig,
    sessions: Map<u32, HostPeerSession>,
    worlds: Map<u32, RemoteModel>,
    access: AccessModel,
    target: u32,
    sender: u32,
    payload: Seq<u8>,
)
    ensures
        ({
            let action = action_on(
                config,
                sessions,
                worlds,
                access,
                addressed(target, sender, payload),
            );
            if target != config.my_client_id {
                action == TunnelActionModel::Ignore(IgnoreReason::OtherTarget)
            } else if payload.len() == 0 {
                action == TunnelActionModel::Ignore(IgnoreReason::Keepalive)
            } else if access.blocked.contains(sender) {
                action == TunnelActionModel::Ignore(IgnoreReason::Denied)
            } else if worlds.contains_key(sender) {
                match worlds[sender].last_client_addr {
                    Some(client) => action == (TunnelActionModel::ToClient {
                        server: sender,
                        to: client,
                        payload,
                    }),
                    None => action == TunnelActionModel::Ignore(IgnoreReason::NoLocalClient),
                }
            } else if access.followers_only && !access.followers.contains(sender) {
                action == TunnelActionModel::Ignore(IgnoreReason::Denied)
            } else if sessions.contains_key(sender) {
                action == (TunnelActionModel::ToHost {
                    peer: sender,
                    to: config.local_minecraft_addr,
                    payload,
                })
            } else {
                action == (TunnelActionModel::Connect {
                    event: TunnelEventModel::ClientConnecting(sender),
                    peer: sender,
                    to: config.local_minecraft_addr,
                    payload,
                })
            }
        }),
{
    addressed_reads_back(target, sender, payload);
}

/// Whatever goes somewhere carries all bytes of the datagram behind the first eight, and what holds
/// fewer than eight goes nowhere.
pub proof fn payload_is_what_follows_the_header(
    config: TunnelConfig,
    sessions: Map<u32, HostPeerSession>,
    worlds: Map<u32, RemoteModel>,
    access: AccessModel,
    data: Seq<u8>,
)
    ensures
        match action_on(config, sessions, worlds, access, data) {
            TunnelActionModel::Ignore(reason) => data.len() < 8 <==> reason
                == IgnoreReason::Malformed,
            TunnelActionModel::ToClient { server, to, payload } => data.len() > 8 && payload
                == data.subrange(8, data.len() as int),
            TunnelActionModel::ToHost { peer, to, payload } => data.len() > 8 && payload
                == data.subrange(8, data.len() as int),
            TunnelActionModel::Connect { event, peer, to, payload } => data.len() > 8 && payload
                == data.subrange(8, data.len() as int),
        },
{
    if data.len() >= 8 {
        assert(data.skip(8) =~= data.subrange(8, data.len() as int));
    }
}

/// A datagram of a known player that goes to the local game counts as a sign of life: the player's
/// last activity is the time of the datagram, whatever it was before, so the player outlasts every
/// cleanup that comes no later than the timeout after it. All other players are as they were.
pub proof fn traffic_keeps_a_player(
    config: TunnelConfig,
    sessions: Map<u32, HostPeerSession>,
    worlds: Map<u32, RemoteModel>,
    access: AccessModel,
    data: Seq<u8>,
    now: Instant,
    cleanup: Instant,
    timeout: Duration,
    other: u32,
)
    ensures
        ({
            let action = action_on(config, sessions, worlds, access, data);
            let after = sessions_after(sessions, action, now);
            action matches TunnelActionModel::ToHost { peer, to, payload } ==> {
                &&& sessions.contains_key(peer)
                &&& after.contains_key(peer)
                &&& after[peer].peer_client_id == peer
                &&& after[peer].last_activity == now
                &&& cleanup.nanos <= now.nanos + timeout.nanos ==> {
                    &&& active_sessions(after, cleanup, timeout).contains_key(peer)
                    &&& active_sessions(after, cleanup, timeout)[peer].last_activity == now
                }
                &&& other != peer ==> {
                    &&& after.contains_key(other) <==> sessions.contains_key(other)
                    &&& sessions.contains_key(other) ==> after[other] == sessions[other]
                }
            }
        }),
{
}

/// A datagram that does not go to the local game as that of a known player changes no player's
/// state: a new player is taken in only once a socket is bound.
pub proof fn other_datagrams_change_no_player(
    config: TunnelConfig,
    sessions: Map<u32, HostPeerSession>,
    worlds: Map<u32, RemoteModel>,
    access: AccessModel,
    data: Seq<u8>,
    now: Instant,
)
    requires
        !(action_on(config, sessions, worlds, access, data) is ToHost),
    ensures
        sessions_after(sessions, action_on(config, sessions, worlds, access, data), now)
            == sessions,
{
}

/// A player whose socket was bound is there, seen just now, beside all others as they were; and the
/// next datagram of theirs that is let through is that of a known player.
pub proof fn connected_player_is_known(
    config: TunnelConfig,
    sessions: Map<u32, HostPeerSession>,
    worlds: Map<u32, RemoteModel>,
    access: AccessModel,
    player: u32,
    now: Instant,
    payload: Seq<u8>,
    other: u32,
)
    requires
        !access.blocked.contains(player),
        !access.followers_only || access.followers.contains(player),
        !worlds.contains_key(player),
        payload.len() > 0,
    ensures
        ({
            let after = seen(sessions, player, now);
            &&& after.contains_key(player)
            &&& after[player].peer_client_id == player
            &&& after[player].last_activity == now
            &&& other != player ==> {
                &&& after.contains_key(other) <==> sessions.contains_key(other)
                &&& sessions.contains_key(other) ==> after[other] == sessions[other]
            }
            &&& action_on(
                config,
                after,
                worlds,
                access,
                addressed(config.my_client_id, player, payload),
            ) == (TunnelActionModel::ToHost {
                peer: player,
                to: config.local_minecraft_addr,
                payload,
            })
        }),
{
    addressed_reads_back(config.my_client_id, player, payload);
}

/// A cleanup keeps exactly the players who were seen within the timeout, as they were.
pub proof fn cleanup_takes_exactly_the_silent(
    sessions: Map<u32, HostPeerSession>,
    now: Instant,
    timeout: Duration,
    player: u32,
)
    ensures
        ({
            let after = active_sessions(sessions, now, timeout);
            &&& after.contains_key(player) <==> sessions.contains_key(player) && now.nanos
                <= sessions[player].last_activity.nanos + timeout.nanos
            &&& after.contains_key(player) ==> after[player] == sessions[player]
        }),
{
}

/// What is told after a cleanup: one departure for each player who went, and no other, and last of
/// all a list of those who are left, which holds each of them and nobody else, once.
pub proof fn cleanup_tells_who_went_and_who_is_left(
    events: Seq<TunnelEventModel>,
    gone: Set<u32>,
    left: Set<u32>,
    id: u32,
)
    requires
        announces(events, gone, left),
    ensures
        events.len() == gone.len() + 1,
        events.last() matches TunnelEventModel::PlayersActive(ids) && ids.len() == left.len() && (
        ids.contains(id) <==> left.contains(id)),
        gone.contains(id) <==> events.drop_last().contains(
            TunnelEventModel::ClientDisconnected(id),
        ),
        forall|i: int|
            0 <= i < events.len() - 1 ==> (#[trigger] events[i] is ClientDisconnected
                && gone.contains(events[i]->ClientDisconnected_0)),
{
    let (departed, rest) = choose|departed: Seq<u32>, rest: Seq<u32>|
        {
            &&& #[trigger] maps::lists(departed, gone)
            &&& #[trigger] maps::lists(rest, left)
            &&& events == departures(departed).push(TunnelEventModel::PlayersActive(rest))
        };
    assert(events.drop_last() =~= departures(departed));
    departed.unique_seq_to_set();
    rest.unique_seq_to_set();
    assert(rest.to_set().contains(id) <==> rest.contains(id));
    assert(departed.to_set().contains(id) <==> departed.contains(id));
    if departed.contains(id) {
        let k = choose|k: int| 0 <= k < departed.len() && departed[k] == id;
        assert(departures(departed)[k] == TunnelEventModel::ClientDisconnected(id));
    }
    if departures(departed).contains(TunnelEventModel::ClientDisconnected(id)) {
        let k = choose|k: int|
            0 <= k < departed.len() && departures(departed)[k]
                == TunnelEventModel::ClientDisconnected(id);
        assert(departed[k] == id);
    }
    assert forall|i: int| 0 <= i < events.len() - 1 implies (#[trigger] events[i]
        is ClientDisconnected && gone.contains(events[i]->ClientDisconnected_0)) by {
        assert(events[i] == departures(departed)[i]);
        assert(departed.to_set().contains(departed[i]));
    }
}

/// A local client that talks to a world is remembered of that world, and nothing else about it, or
/// about any other world, changes. A world that is not the one talked to is left as it is.
pub proof fn talking_client_is_remembered(
    m: ManagerModel,
    remote: RemoteModel,
    client: SocketAddr,
    other: u32,
)
    ensures
        ({
            let after = client_noted(m, remote, client);
            let id = remote.target_client_id;
            &&& after.ports == m.ports
            &&& after.bind_ip == m.bind_ip
            &&& after.next_serial == m.next_serial
            &&& after.servers.dom() == m.servers.dom()
            &&& m.servers.contains_key(other) ==> {
                let was = m.servers[other];
                let is = after.servers[other];
                &&& is.target_client_id == was.target_client_id
                &&& is.target_raknet_id == was.target_raknet_id
                &&& is.relay_addr == was.relay_addr
                &&& is.raw_identifier == was.raw_identifier
                &&& is.parsed_identifier == was.parsed_identifier
                &&& is.ephemeral_port == was.ephemeral_port
                &&& is.serial == was.serial
                &&& is.shut_down == was.shut_down
                &&& is.last_client_addr == if other == id && was.serial == remote.serial {
                    Some(client)
                } else {
                    was.last_client_addr
                }
            }
        }),
{
    assert(client_noted(m, remote, client).servers.dom() =~= m.servers.dom());
}

/// The packet from one client to another is eight bytes of ids, the target's first, and the payload.
pub proof fn addressed_packet_has_its_layout(to: u32, from: u32, payload: Seq<u8>)
    ensures
        ({
            let p = addressed(to, from, payload);
            &&& p.len() == 8 + payload.len()
            &&& to == p[0] * 0x100_0000 + p[1] * 0x1_0000 + p[2] * 0x100 + p[3]
            &&& from == p[4] * 0x100_0000 + p[5] * 0x1_0000 + p[6] * 0x100 + p[7]
            &&& p.subrange(8, p.len() as int) == payload
        }),
{
    protocol::packet_has_its_layout(
        MineshaftHeader { target_session_id: to, sender_session_id: from },
        payload,
    );
}

/// Events and actions are seen as they are, with all that they carry, and a list of events with each
/// in its place.
pub proof fn actions_are_seen_as_they_are(
    events: Seq<TunnelEvent>,
    i: int,
    action: TunnelAction,
)
    ensures
        event_views(events).len() == events.len(),
        0 <= i < events.len() ==> event_views(events)[i] == match events[i] {
            TunnelEvent::ClientConnecting(id) => TunnelEventModel::ClientConnecting(id),
            TunnelEvent::ClientDisconnected(id) => TunnelEventModel::ClientDisconnected(id),
            TunnelEvent::PlayersActive(ids) => TunnelEventModel::PlayersActive(ids@),
        },
        match action {
            TunnelAction::Ignore(reason) => action@ == TunnelActionModel::Ignore(reason),
            TunnelAction::ToClient { server, to, payload } => action@
                == (TunnelActionModel::ToClient { server, to, payload: payload@ }),
            TunnelAction::ToHost { peer, to, payload } => action@ == (TunnelActionModel::ToHost {
                peer,
                to,
                payload: payload@,
            }),
            TunnelAction::Connect { event, peer, to, payload } => action@
                == (TunnelActionModel::Connect { event: event@, peer, to, payload: payload@ }),
        },
{
}

} // verus!
