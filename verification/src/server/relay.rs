//! The relay: which datagrams it answers, forwards and drops.

use std::collections::HashSet;

use vstd::prelude::*;

use crate::addr::{IpAddr, SocketAddr};
use crate::bytes;
use crate::io_error::IoError;
use crate::maps;
use crate::server::protocol;
use crate::server::protocol::MineshaftHeader;
use crate::server::session;
use crate::server::session::{Session, SessionRegistry};
use crate::time::{Duration, Instant};

verus! {

broadcast use vstd::std_specs::hash::group_hash_axioms;

/// What a relay is started with.
#[derive(Clone, Copy, Debug, PartialEq, Eq, Structural)]
pub struct RelayConfig {
    pub bind_addr: SocketAddr,
    /// A session that has been silent for longer than this is dropped.
    pub session_timeout: Duration,
    /// How often silent sessions are looked for.
    pub cleanup_interval: Duration,
}

impl RelayConfig {
    /// A relay at a port of every local IPv4 address, with the usual intervals.
    pub open spec fn at_port(port: u16) -> RelayConfig {
        RelayConfig {
            bind_addr: SocketAddr::V4 { ip: 0, port },
            session_timeout: Duration { nanos: 35_000_000_000 },
            cleanup_interval: Duration { nanos: 10_000_000_000 },
        }
    }
}

impl Default for RelayConfig {
    fn default() -> (r: Self)
        ensures
            r == RelayConfig::at_port(19999),
    {
        RelayConfig {
            bind_addr: SocketAddr::new(IpAddr::v4(0, 0, 0, 0), 19999),
            session_timeout: Duration::from_secs(35),
            cleanup_interval: Duration::from_secs(10),
        }
    }
}

/// A relay's sessions and the pairs it keeps apart.
pub struct RelayServer {
    config: RelayConfig,
    registry: SessionRegistry,
    /// The blocked pairs of host and peer, each packed into one number.
    blocked_peers: HashSet<u64>,
}

/// What a relay holds: its sessions, and of the blocked pairs the host first.
pub struct RelayModel {
    pub sessions: Map<u32, Session>,
    pub blocked: Set<(u32, u32)>,
}

/// Why a datagram goes nowhere.
#[derive(Clone, Copy, Debug, PartialEq, Eq, Structural)]
pub enum DropReason {
    /// It does not hold a header.
    TooShort,
    /// Its sender is not registered at the endpoint that it came from.
    UnregisteredEndpoint,
    /// Its target has blocked its sender.
    Blocked,
    /// Its target is not registered.
    TargetOffline,
}

/// What the relay does about a datagram.
#[allow(inconsistent_fields)]
#[derive(Debug)]
pub enum RelayAction {
    /// Nothing is sent.
    Drop(DropReason),
    /// A handshake is answered.
    Reply { to: SocketAddr, bytes: [u8; 8] },
    /// The datagram that came in goes out to the target's endpoint.
    Forward { to: SocketAddr, bytes: Vec<u8> },
}

/// A [`RelayAction`] as mathematical values: where the bytes go, and which.
pub enum ActionModel {
    Drop(DropReason),
    Reply { to: SocketAddr, bytes: Seq<u8> },
    Forward { to: SocketAddr, bytes: Seq<u8> },
}

impl View for RelayAction {
    type V = ActionModel;

    open spec fn view(&self) -> ActionModel {
        match *self {
            RelayAction::Drop(reason) => ActionModel::Drop(reason),
            RelayAction::Reply { to, bytes } => ActionModel::Reply { to, bytes: bytes@ },
            RelayAction::Forward { to, bytes } => ActionModel::Forward { to, bytes: bytes@ },
        }
    }
}

/// What a running relay is woken by.
pub enum RelayEvent<'a> {
    Shutdown,
    CleanupTick,
    Datagram { bytes: &'a [u8], from: SocketAddr },
    ReceiveFailed,
}

/// What a running relay does next.
#[derive(Debug)]
pub enum RelayStep {
    /// The relay ends.
    Stop,
    /// Silent sessions were dropped; carries their ids.
    Pruned(Vec<u32>),
    /// A datagram was handled.
    Act(RelayAction),
}

/// One number for a pair of session ids.
spec fn pair_code(host_id: u32, peer_id: u32) -> u64 {
    (host_id * 0x1_0000_0000 + peer_id) as u64
}

fn pack_pair(host_id: u32, peer_id: u32) -> (r: u64)
    ensures
        r == pair_code(host_id, peer_id),
{
    host_id as u64 * 0x1_0000_0000 + peer_id as u64
}

/// Different pairs have different numbers.
proof fn pair_codes_differ(a: (u32, u32), b: (u32, u32))
    ensures
        pair_code(a.0, a.1) == pair_code(b.0, b.1) ==> a == b,
{
}

/// The header that the first eight bytes hold.
pub open spec fn header_of(data: Seq<u8>) -> MineshaftHeader {
    MineshaftHeader {
        target_session_id: bytes::be_value(data.subrange(0, 4)) as u32,
        sender_session_id: bytes::be_value(data.subrange(4, 8)) as u32,
    }
}

/// Whether the datagram is a handshake: a header alone, from a session to itself.
pub open spec fn is_handshake_packet(data: Seq<u8>) -> bool {
    &&& data.len() == protocol::MINESHAFT_HEADER_LEN
    &&& header_of(data).target_session_id == header_of(data).sender_session_id
}

/// Whether a session is registered at an endpoint.
pub open spec fn registered_at(sessions: Map<u32, Session>, id: u32, at: SocketAddr) -> bool {
    sessions.contains_key(id) && sessions[id].socket_addr == at
}

/// The sessions after a datagram came in.
pub open spec fn sessions_after(
    m: RelayModel,
    data: Seq<u8>,
    from: SocketAddr,
    now: Instant,
) -> Map<u32, Session> {
    if is_handshake_packet(data) {
        session::registered(m.sessions, header_of(data).sender_session_id, from, now)
    } else {
        m.sessions
    }
}

/// What the relay does about a datagram.
pub open spec fn action_on(m: RelayModel, data: Seq<u8>, from: SocketAddr) -> ActionModel {
    let h = header_of(data);
    if data.len() < protocol::MINESHAFT_HEADER_LEN {
        ActionModel::Drop(DropReason::TooShort)
    } else if is_handshake_packet(data) {
        ActionModel::Reply { to: from, bytes: data }
    } else if !registered_at(m.sessions, h.sender_session_id, from) {
        ActionModel::Drop(DropReason::UnregisteredEndpoint)
    } else if m.blocked.contains((h.target_session_id, h.sender_session_id)) {
        ActionModel::Drop(DropReason::Blocked)
    } else if !m.sessions.contains_key(h.target_session_id) {
        ActionModel::Drop(DropReason::TargetOffline)
    } else {
        ActionModel::Forward { to: m.sessions[h.target_session_id].socket_addr, bytes: data }
    }
}

/// The relay after a datagram came in.
pub open spec fn after_datagram(
    m: RelayModel,
    data: Seq<u8>,
    from: SocketAddr,
    now: Instant,
) -> RelayModel {
    RelayModel { sessions: sessions_after(m, data, from, now), blocked: m.blocked }
}

impl View for RelayServer {
    type V = RelayModel;

    closed spec fn view(&self) -> RelayModel {
        RelayModel {
            sessions: self.registry@,
            blocked: Set::new(
                |p: (u32, u32)| self.blocked_peers@.contains(pair_code(p.0, p.1)),
            ),
        }
    }
}

impl RelayServer {
    /// Whether the sessions are in order.
    pub closed spec fn wf(&self) -> bool {
        self.registry.wf()
    }

    /// What the relay was started with.
    pub closed spec fn settings(&self) -> RelayConfig {
        self.config
    }

    /// Every session of a relay stands under its own id, and no two share an endpoint.
    pub proof fn sessions_are_consistent(&self)
        requires
            self.wf(),
        ensures
            session::sessions_consistent(self@.sessions),
    {
        self.registry.registry_is_consistent();
    }

    /// A relay without sessions or blocked pairs. No interval may be zero.
    pub fn bind(config: RelayConfig) -> (r: Result<Self, IoError>)
        ensures
            match r {
                Ok(relay) => {
                    &&& config.session_timeout.nanos != 0 && config.cleanup_interval.nanos != 0
                    &&& relay.wf()
                    &&& relay.settings() == config
                    &&& relay@.sessions == Map::<u32, Session>::empty()
                    &&& relay@.blocked == Set::<(u32, u32)>::empty()
                },
                Err(e) => {
                    &&& config.session_timeout.nanos == 0 || config.cleanup_interval.nanos == 0
                    &&& e.refuses("relay intervals must be greater than zero"@)
                },
            },
    {
        if config.session_timeout.is_zero() || config.cleanup_interval.is_zero() {
            return Err(IoError::InvalidInput("relay intervals must be greater than zero"));
        }
        let relay = RelayServer {
            config,
            registry: SessionRegistry::new(),
            blocked_peers: HashSet::new(),
        };
        assert(relay@.blocked =~= Set::<(u32, u32)>::empty());
        Ok(relay)
    }

    /// The sessions.
    pub fn registry(&self) -> (r: &SessionRegistry)
        requires
            self.wf(),
        ensures
            r.wf(),
            r@ == self@.sessions,
    {
        &self.registry
    }

    /// The sessions, to be changed from outside: what is done to them is done to the relay's.
    pub fn registry_mut(&mut self) -> (r: &mut SessionRegistry)
        requires
            old(self).wf(),
        ensures
            r.wf(),
            r@ == old(self)@.sessions,
            final(self).wf() == final(r).wf(),
            final(self)@ == (RelayModel { sessions: final(r)@, ..old(self)@ }),
            final(self).settings() == old(self).settings(),
    {
        &mut self.registry
    }

    /// The address to bind and the intervals.
    pub fn config(&self) -> (r: RelayConfig)
        ensures
            r == self.settings(),
    {
        self.config
    }

    /// Keeps what the peer sends from the host.
    pub fn block_peer(&mut self, host_id: u32, peer_id: u32)
        requires
            old(self).wf(),
        ensures
            final(self).wf(),
            final(self).settings() == old(self).settings(),
            final(self)@.sessions == old(self)@.sessions,
            final(self)@.blocked == old(self)@.blocked.insert((host_id, peer_id)),
    {
        self.blocked_peers.insert(pack_pair(host_id, peer_id));
        assert forall|p: (u32, u32)| #[trigger]
            self@.blocked.contains(p) == old(self)@.blocked.insert((host_id, peer_id)).contains(
                p,
            ) by {
            pair_codes_differ(p, (host_id, peer_id));
        }
        assert(self@.blocked =~= old(self)@.blocked.insert((host_id, peer_id)));
    }

    /// Lets what the peer sends reach the host again.
    pub fn unblock_peer(&mut self, host_id: u32, peer_id: u32)
        requires
            old(self).wf(),
        ensures
            final(self).wf(),
            final(self).settings() == old(self).settings(),
            final(self)@.sessions == old(self)@.sessions,
            final(self)@.blocked == old(self)@.blocked.remove((host_id, peer_id)),
    {
        self.blocked_peers.remove(&pack_pair(host_id, peer_id));
        assert forall|p: (u32, u32)| #[trigger]
            self@.blocked.contains(p) == old(self)@.blocked.remove((host_id, peer_id)).contains(
                p,
            ) by {
            pair_codes_differ(p, (host_id, peer_id));
        }
        assert(self@.blocked =~= old(self)@.blocked.remove((host_id, peer_id)));
    }

    /// Whether the host has blocked the peer.
    pub fn is_blocked(&self, host_id: u32, peer_id: u32) -> (r: bool)
        ensures
            r == self@.blocked.contains((host_id, peer_id)),
    {
        self.blocked_peers.contains(&pack_pair(host_id, peer_id))
    }

    /// Takes in one datagram and says what is to be sent.
    ///
    /// Only handshakes may register or migrate an endpoint, so that no unsolicited data packet
    /// takes over a session.
    pub fn handle_datagram(&mut self, data: &[u8], from: SocketAddr, now: Instant) -> (r:
        RelayAction)
        requires
            old(self).wf(),
        ensures
            final(self).wf(),
            final(self).settings() == old(self).settings(),
            final(self)@ == after_datagram(old(self)@, data@, from, now),
            r@ == action_on(old(self)@, data@, from),
    {
        let (header, payload) = match MineshaftHeader::decode(data) {
            Ok(parts) => parts,
            Err(_) => {
                return RelayAction::Drop(DropReason::TooShort);
            },
        };
        assert(header == header_of(data@));
        let sender_id = header.sender_session_id;
        let target_id = header.target_session_id;
        let is_handshake = header.is_handshake() && payload.len() == 0;
        if is_handshake {
            self.registry.register_or_refresh(sender_id, from, now);
            let pong = MineshaftHeader::handshake(sender_id).to_bytes();
            proof {
                protocol::encapsulate_inverts_decode(data@, header);
                assert(data@.skip(8) == Seq::<u8>::empty());
                assert(protocol::header_bytes(header) + data@.skip(8) == protocol::header_bytes(
                    header,
                ));
            }
            return RelayAction::Reply { to: from, bytes: pong };
        }
        match self.registry.get_addr(sender_id) {
            Some(registered) => {
                if registered != from {
                    return RelayAction::Drop(DropReason::UnregisteredEndpoint);
                }
            },
            None => {
                return RelayAction::Drop(DropReason::UnregisteredEndpoint);
            },
        }
        if self.is_blocked(target_id, sender_id) {
            return RelayAction::Drop(DropReason::Blocked);
        }
        match self.registry.get_addr(target_id) {
            Some(to) => RelayAction::Forward { to, bytes: vstd::slice::slice_to_vec(data) },
            None => RelayAction::Drop(DropReason::TargetOffline),
        }
    }

    /// Drops the sessions that have been silent for too long and gives their ids, in whatever
    /// order they come.
    pub fn cleanup(&mut self, now: Instant) -> (r: Vec<u32>)
        requires
            old(self).wf(),
        ensures
            final(self).wf(),
            final(self).settings() == old(self).settings(),
            final(self)@.blocked == old(self)@.blocked,
            final(self)@.sessions == session::pruned(
                old(self)@.sessions,
                now,
                old(self).settings().session_timeout,
            ),
            maps::lists(
                r@,
                old(self)@.sessions.dom().difference(final(self)@.sessions.dom()),
            ),
    {
        let timeout = self.config.session_timeout;
        self.registry.prune_stale(timeout, now)
    }

    /// One turn of a running relay.
    pub fn step(&mut self, event: RelayEvent, now: Instant) -> (r: RelayStep)
        requires
            old(self).wf(),
        ensures
            final(self).wf(),
            final(self).settings() == old(self).settings(),
            match event {
                RelayEvent::Shutdown | RelayEvent::ReceiveFailed => {
                    &&& r is Stop
                    &&& final(self)@ == old(self)@
                },
                RelayEvent::CleanupTick => {
                    &&& final(self)@.blocked == old(self)@.blocked
                    &&& final(self)@.sessions == session::pruned(
                        old(self)@.sessions,
                        now,
                        old(self).settings().session_timeout,
                    )
                    &&& r matches RelayStep::Pruned(ids) && maps::lists(
                        ids@,
                        old(self)@.sessions.dom().difference(final(self)@.sessions.dom()),
                    )
                },
                RelayEvent::Datagram { bytes, from } => {
                    &&& final(self)@ == after_datagram(old(self)@, bytes@, from, now)
                    &&& r matches RelayStep::Act(action) && action@ == action_on(
                        old(self)@,
                        bytes@,
                        from,
                    )
                },
            },
    {
        match event {
            RelayEvent::Shutdown => RelayStep::Stop,
            RelayEvent::ReceiveFailed => RelayStep::Stop,
            RelayEvent::CleanupTick => RelayStep::Pruned(self.cleanup(now)),
            RelayEvent::Datagram { bytes, from } => RelayStep::Act(
                self.handle_datagram(bytes, from, now),
            ),
        }
    }
}

/// Only a handshake changes the sessions, and only that of its own sender and of whoever held its
/// endpoint.
pub proof fn only_handshakes_register(
    m: RelayModel,
    data: Seq<u8>,
    from: SocketAddr,
    now: Instant,
    id: u32,
)
    ensures
        !is_handshake_packet(data) ==> after_datagram(m, data, from, now).sessions == m.sessions,
        is_handshake_packet(data) && id != header_of(data).sender_session_id && m.sessions.contains_key(
            id,
        ) && m.sessions[id].socket_addr != from ==> {
            &&& after_datagram(m, data, from, now).sessions.contains_key(id)
            &&& after_datagram(m, data, from, now).sessions[id] == m.sessions[id]
        },
{
}

/// A handshake is always answered, to where it came from, with its own eight bytes, and registers
/// its sender there.
pub proof fn handshake_is_echoed(m: RelayModel, id: u32, from: SocketAddr, now: Instant)
    ensures
        ({
            let hello = protocol::header_bytes(
                MineshaftHeader { target_session_id: id, sender_session_id: id },
            );
            &&& action_on(m, hello, from) == ActionModel::Reply { to: from, bytes: hello }
            &&& registered_at(after_datagram(m, hello, from, now).sessions, id, from)
            &&& after_datagram(m, hello, from, now).sessions[id].last_seen == now
        }),
{
    let h = MineshaftHeader { target_session_id: id, sender_session_id: id };
    let hello = protocol::header_bytes(h);
    protocol::decode_inverts_encapsulate(h, Seq::<u8>::empty());
    assert(protocol::packet_bytes(h, Seq::<u8>::empty()) == hello);
    assert(hello.skip(8).len() == 0);
    assert(header_of(hello) == h);
}

/// What is forwarded is the datagram itself, to the endpoint of the target, on behalf of a sender
/// that is registered where the datagram came from and that the target has not blocked.
pub proof fn forwards_only_permitted(
    m: RelayModel,
    data: Seq<u8>,
    from: SocketAddr,
    to: SocketAddr,
    sent: Seq<u8>,
)
    requires
        action_on(m, data, from) == (ActionModel::Forward { to, bytes: sent }),
    ensures
        sent == data,
        registered_at(m.sessions, header_of(data).sender_session_id, from),
        registered_at(m.sessions, header_of(data).target_session_id, to),
        !m.blocked.contains((header_of(data).target_session_id, header_of(data).sender_session_id)),
{
}

/// Nothing but a handshake's answer is sent for a sender that its target has blocked.
pub proof fn blocked_sender_is_never_forwarded(
    m: RelayModel,
    host_id: u32,
    peer_id: u32,
    payload: Seq<u8>,
    from: SocketAddr,
)
    requires
        m.blocked.contains((host_id, peer_id)),
        host_id != peer_id || payload.len() > 0,
    ensures
        action_on(
            m,
            protocol::packet_bytes(
                MineshaftHeader { target_session_id: host_id, sender_session_id: peer_id },
                payload,
            ),
            from,
        ) is Drop,
{
    let h = MineshaftHeader { target_session_id: host_id, sender_session_id: peer_id };
    protocol::decode_inverts_encapsulate(h, payload);
    assert(header_of(protocol::packet_bytes(h, payload)) == h);
}

/// Two peers that have both shaken hands, from different endpoints, reach each other: what one
/// addresses to the other arrives there unchanged, unless the other has blocked it.
pub proof fn registered_peers_are_connected(
    m: RelayModel,
    a: u32,
    at_a: SocketAddr,
    b: u32,
    at_b: SocketAddr,
    now: Instant,
    payload: Seq<u8>,
)
    requires
        a != b,
        at_a != at_b,
        !m.blocked.contains((a, b)),
    ensures
        ({
            let hello_a = protocol::header_bytes(
                MineshaftHeader { target_session_id: a, sender_session_id: a },
            );
            let hello_b = protocol::header_bytes(
                MineshaftHeader { target_session_id: b, sender_session_id: b },
            );
            let packet = protocol::packet_bytes(
                MineshaftHeader { target_session_id: a, sender_session_id: b },
                payload,
            );
            action_on(
                after_datagram(after_datagram(m, hello_a, at_a, now), hello_b, at_b, now),
                packet,
                at_b,
            ) == ActionModel::Forward { to: at_a, bytes: packet }
        }),
{
    let hello_a = protocol::header_bytes(
        MineshaftHeader { target_session_id: a, sender_session_id: a },
    );
    let hello_b = protocol::header_bytes(
        MineshaftHeader { target_session_id: b, sender_session_id: b },
    );
    let h = MineshaftHeader { target_session_id: a, sender_session_id: b };
    let first = after_datagram(m, hello_a, at_a, now);
    handshake_is_echoed(m, a, at_a, now);
    handshake_is_echoed(first, b, at_b, now);
    handshake_header(a);
    handshake_header(b);
    protocol::decode_inverts_encapsulate(h, payload);
    assert(header_of(protocol::packet_bytes(h, payload)) == h);
}

/// A handshake's header is what was written.
proof fn handshake_header(id: u32)
    ensures
        header_of(
            protocol::header_bytes(
                MineshaftHeader { target_session_id: id, sender_session_id: id },
            ),
        ) == (MineshaftHeader { target_session_id: id, sender_session_id: id }),
{
    let h = MineshaftHeader { target_session_id: id, sender_session_id: id };
    protocol::decode_inverts_encapsulate(h, Seq::<u8>::empty());
    assert(protocol::packet_bytes(h, Seq::<u8>::empty()) == protocol::header_bytes(h));
}

/// A session survives every cleanup that comes no later than its timeout after its last handshake.
pub proof fn fresh_session_is_kept(
    m: RelayModel,
    id: u32,
    from: SocketAddr,
    shaken: Instant,
    now: Instant,
    timeout: Duration,
)
    requires
        now.nanos <= shaken.nanos + timeout.nanos,
    ensures
        ({
            let hello = protocol::header_bytes(
                MineshaftHeader { target_session_id: id, sender_session_id: id },
            );
            registered_at(
                session::pruned(after_datagram(m, hello, from, shaken).sessions, now, timeout),
                id,
                from,
            )
        }),
{
    handshake_is_echoed(m, id, from, shaken);
}

/// What a relay makes of any packet, by its two ids and its payload alone. A bare header to oneself
/// is answered with the same bytes. Anything else needs a sender that is registered where it came
/// from, a target that has not blocked the sender, and a target that is registered, in this order;
/// it then goes to the target's endpoint as it is.
pub proof fn packets_are_routed_by_their_ids(
    m: RelayModel,
    target: u32,
    sender: u32,
    payload: Seq<u8>,
    from: SocketAddr,
)
    ensures
        ({
            let packet = protocol::packet_bytes(
                MineshaftHeader { target_session_id: target, sender_session_id: sender },
                payload,
            );
            let action = action_on(m, packet, from);
            if target == sender && payload.len() == 0 {
                action == (ActionModel::Reply { to: from, bytes: packet })
            } else if !m.sessions.contains_key(sender) || m.sessions[sender].socket_addr != from {
                action == ActionModel::Drop(DropReason::UnregisteredEndpoint)
            } else if m.blocked.contains((target, sender)) {
                action == ActionModel::Drop(DropReason::Blocked)
            } else if !m.sessions.contains_key(target) {
                action == ActionModel::Drop(DropReason::TargetOffline)
            } else {
                action == (ActionModel::Forward {
                    to: m.sessions[target].socket_addr,
                    bytes: packet,
                })
            }
        }),
{
    let h = MineshaftHeader { target_session_id: target, sender_session_id: sender };
    protocol::decode_inverts_encapsulate(h, payload);
    protocol::packet_has_its_layout(h, payload);
    assert(header_of(protocol::packet_bytes(h, payload)) == h);
}

/// What a packet does to a relay: a bare header to oneself registers its sender where it came from,
/// just then, in the place of whoever was there; nothing else changes a session, and nothing at all
/// changes who is blocked.
pub proof fn packets_change_only_their_sender(
    m: RelayModel,
    target: u32,
    sender: u32,
    payload: Seq<u8>,
    from: SocketAddr,
    now: Instant,
    other: u32,
)
    ensures
        ({
            let packet = protocol::packet_bytes(
                MineshaftHeader { target_session_id: target, sender_session_id: sender },
                payload,
            );
            let after = after_datagram(m, packet, from, now);
            &&& after.blocked == m.blocked
            &&& target != sender || payload.len() > 0 ==> after.sessions == m.sessions
            &&& target == sender && payload.len() == 0 ==> {
                &&& after.sessions.contains_key(sender)
                &&& after.sessions[sender].socket_addr == from
                &&& after.sessions[sender].last_seen == now
                &&& other != sender ==> (after.sessions.contains_key(other)
                    <==> m.sessions.contains_key(other) && m.sessions[other].socket_addr != from)
                &&& other != sender && m.sessions.contains_key(other)
                    && m.sessions[other].socket_addr != from ==> after.sessions[other]
                    == m.sessions[other]
            }
        }),
{
    let h = MineshaftHeader { target_session_id: target, sender_session_id: sender };
    protocol::decode_inverts_encapsulate(h, payload);
    protocol::packet_has_its_layout(h, payload);
    assert(header_of(protocol::packet_bytes(h, payload)) == h);
    session::checking_in_moves_nobody_else(m.sessions, sender, from, now, other);
}

/// Bytes too few for a header are dropped and change nothing.
pub proof fn short_datagram_does_nothing(
    m: RelayModel,
    data: Seq<u8>,
    from: SocketAddr,
    now: Instant,
)
    requires
        data.len() < 8,
    ensures
        action_on(m, data, from) == ActionModel::Drop(DropReason::TooShort),
        after_datagram(m, data, from, now).sessions == m.sessions,
        after_datagram(m, data, from, now).blocked == m.blocked,
{
}

/// A session that has been silent for more than the timeout does not survive a cleanup, so that
/// nothing reaches it until it shakes hands again.
pub proof fn silent_session_is_cut_off(
    m: RelayModel,
    id: u32,
    sender: u32,
    payload: Seq<u8>,
    from: SocketAddr,
    now: Instant,
    timeout: Duration,
)
    requires
        m.sessions.contains_key(id) ==> now.nanos > m.sessions[id].last_seen.nanos + timeout.nanos,
        id != sender,
    ensures
        ({
            let after = RelayModel {
                sessions: session::pruned(m.sessions, now, timeout),
                blocked: m.blocked,
            };
            let packet = protocol::packet_bytes(
                MineshaftHeader { target_session_id: id, sender_session_id: sender },
                payload,
            );
            &&& !after.sessions.contains_key(id)
            &&& action_on(after, packet, from) is Drop
        }),
{
    let after = RelayModel {
        sessions: session::pruned(m.sessions, now, timeout),
        blocked: m.blocked,
    };
    session::pruning_takes_the_silent(m.sessions, now, timeout, id);
    packets_are_routed_by_their_ids(after, id, sender, payload, from);
}

/// A relay at a port listens there at every local IPv4 address, drops who has been silent for more
/// than 35 seconds, and looks for them every ten.
pub proof fn usual_relay_at_any_port(port: u16)
    ensures
        RelayConfig::at_port(port).bind_addr == (SocketAddr::V4 { ip: 0, port }),
        RelayConfig::at_port(port).session_timeout.nanos == 35_000_000_000,
        RelayConfig::at_port(port).cleanup_interval.nanos == 10_000_000_000,
{
}

} // verus!
