//! Pongs that show remote worlds in the local game's server list.

use vstd::prelude::*;

use crate::addr;
use crate::addr::{IpAddr, SocketAddr};
use crate::datagram;
use crate::datagram::{Outgoing, OutgoingModel};
use crate::io_error::IoError;
use crate::lan::manager;
use crate::lan::manager::{RemoteModel, ServerManager};
use crate::lan::packets;
use crate::lan::packets::{is_unconnected_ping, parse_unconnected_ping};
use crate::time::Duration;

verus! {

/// What the pongs are sent with.
#[derive(Debug)]
pub struct PongEngineConfig {
    /// Where periodic pongs go: the local game client, or a LAN broadcast address.
    pub broadcast_targets: Vec<SocketAddr>,
    /// Where to listen for the game's pings, if anywhere.
    pub listen_addr: Option<SocketAddr>,
    /// Where the sending socket is bound.
    pub bind_addr: SocketAddr,
    /// The time between two periodic bursts.
    pub burst_interval: Duration,
}

impl Clone for PongEngineConfig {
    fn clone(&self) -> (r: Self)
        ensures
            r.broadcast_targets@ == self.broadcast_targets@,
            r.listen_addr == self.listen_addr,
            r.bind_addr == self.bind_addr,
            r.burst_interval == self.burst_interval,
    {
        let broadcast_targets = self.broadcast_targets.clone();
        assert(broadcast_targets@ =~= self.broadcast_targets@);
        PongEngineConfig {
            broadcast_targets,
            listen_addr: self.listen_addr,
            bind_addr: self.bind_addr,
            burst_interval: self.burst_interval,
        }
    }
}

impl Default for PongEngineConfig {
    fn default() -> (r: Self)
        ensures
            r.broadcast_targets@.len() == 1,
            addr::is_loopback_at(r.broadcast_targets@[0], 19132),
            r.listen_addr == Some(SocketAddr::V4 { ip: 0, port: 19132 }),
            r.bind_addr == (SocketAddr::V4 { ip: 0, port: 0 }),
            r.burst_interval.nanos == 1_000_000_000,
    {
        PongEngineConfig {
            broadcast_targets: vec![SocketAddr::new(IpAddr::v4(127, 0, 0, 1), 19132)],
            listen_addr: Some(SocketAddr::new(IpAddr::v4(0, 0, 0, 0), 19132)),
            bind_addr: SocketAddr::new(IpAddr::v4(0, 0, 0, 0), 0),
            burst_interval: Duration::from_millis(1000),
        }
    }
}

/// The pongs of some worlds, in order, without those whose text does not fit into one.
pub open spec fn pongs(worlds: Seq<RemoteModel>, timestamp: u64) -> Seq<Seq<u8>>
    decreases worlds.len(),
{
    if worlds.len() == 0 {
        Seq::empty()
    } else {
        let before = pongs(worlds.drop_last(), timestamp);
        match manager::synthetic_pong(worlds.last(), timestamp) {
            Ok(bytes) => before.push(bytes),
            Err(_) => before,
        }
    }
}

/// The burst that goes to one target. Without a clock reading there is none.
pub open spec fn burst(
    servers: Map<u32, RemoteModel>,
    timestamp: Option<u64>,
    target: SocketAddr,
) -> Seq<OutgoingModel> {
    match timestamp {
        Some(t) => datagram::all_to(pongs(manager::in_order(servers), t), target),
        None => Seq::empty(),
    }
}

/// The bursts to all targets, one after the other, each with its own clock reading.
pub open spec fn bursts(
    servers: Map<u32, RemoteModel>,
    timestamps: Seq<Option<u64>>,
    targets: Seq<SocketAddr>,
) -> Seq<OutgoingModel>
    decreases targets.len(),
{
    if targets.len() == 0 {
        Seq::empty()
    } else {
        bursts(servers, timestamps, targets.drop_last()) + burst(
            servers,
            timestamps[targets.len() - 1],
            targets.last(),
        )
    }
}

/// What the ping listener is woken by.
pub enum ListenerInput<'a> {
    Shutdown,
    Datagram { bytes: &'a [u8], from: SocketAddr },
    ReceiveFailed,
}

/// What is done next. The listener may end while the periodic bursts go on.
#[derive(Debug)]
pub enum PongStep {
    Stop,
    Send(Vec<Outgoing>),
}

/// What shows the remote worlds to the local game.
pub struct PongEngine {
    config: PongEngineConfig,
}

impl PongEngine {
    /// Where periodic pongs go.
    pub closed spec fn targets(&self) -> Seq<SocketAddr> {
        self.config.broadcast_targets@
    }

    /// What the pongs are sent with.
    pub closed spec fn settings(&self) -> PongEngineConfig {
        self.config
    }

    /// The burst interval may not be zero.
    pub fn new(config: PongEngineConfig) -> (r: Result<Self, IoError>)
        ensures
            match r {
                Ok(engine) => {
                    &&& config.burst_interval.nanos != 0
                    &&& engine.settings() == config
                    &&& engine.targets() == config.broadcast_targets@
                },
                Err(e) => {
                    &&& config.burst_interval.nanos == 0
                    &&& e.refuses("pong burst interval must be greater than zero"@)
                },
            },
    {
        if config.burst_interval.is_zero() {
            return Err(IoError::InvalidInput("pong burst interval must be greater than zero"));
        }
        Ok(PongEngine { config })
    }

    pub fn config(&self) -> (r: &PongEngineConfig)
        ensures
            *r == self.settings(),
            r.broadcast_targets@ == self.targets(),
    {
        &self.config
    }

    /// The pongs of all remote worlds, for the given target.
    pub fn send_pong_burst_to(
        &self,
        manager: &ServerManager,
        timestamp: Option<u64>,
        target: SocketAddr,
    ) -> (r: Vec<Outgoing>)
        requires
            manager.wf(),
        ensures
            datagram::outgoing_views(r@) == burst(manager@.servers, timestamp, target),
    {
        let mut out: Vec<Outgoing> = Vec::new();
        let now: u64 = match timestamp {
            Some(t) => t,
            None => {
                assert(datagram::outgoing_views(out@) =~= Seq::<OutgoingModel>::empty());
                return out;
            },
        };
        let servers = manager.all_servers();
        let ghost worlds = manager::remote_views(servers@);
        assert(datagram::outgoing_views(out@) =~= datagram::all_to(
            pongs(worlds.take(0), now),
            target,
        ));
        for i in 0..servers.len()
            invariant
                worlds == manager::remote_views(servers@),
                datagram::outgoing_views(out@) == datagram::all_to(
                    pongs(worlds.take(i as int), now),
                    target,
                ),
        {
            let ghost sent = datagram::outgoing_views(out@);
            let ghost done = pongs(worlds.take(i as int), now);
            assert(worlds.take(i + 1).drop_last() == worlds.take(i as int));
            assert(worlds.take(i + 1).last() == servers@[i as int]@);
            match servers[i].build_synthetic_pong(now) {
                Ok(bytes) => {
                    let ghost packet = bytes@;
                    out.push(Outgoing { to: target, bytes });
                    assert(datagram::outgoing_views(out@) =~= sent.push(
                        OutgoingModel { to: target, bytes: packet },
                    ));
                    assert(datagram::all_to(done.push(packet), target) =~= datagram::all_to(
                        done,
                        target,
                    ).push(OutgoingModel { to: target, bytes: packet }));
                },
                Err(_) => {},
            }
        }
        assert(worlds.take(worlds.len() as int) == worlds);
        out
    }

    /// The pongs of all remote worlds, for every configured target.
    pub fn broadcast_burst(&self, manager: &ServerManager, timestamps: &Vec<Option<u64>>) -> (r:
        Vec<Outgoing>)
        requires
            manager.wf(),
            timestamps@.len() == self.targets().len(),
        ensures
            datagram::outgoing_views(r@) == bursts(manager@.servers, timestamps@, self.targets()),
    {
        let mut out: Vec<Outgoing> = Vec::new();
        assert(datagram::outgoing_views(out@) =~= bursts(
            manager@.servers,
            timestamps@,
            self.targets().take(0),
        ));
        for i in 0..self.config.broadcast_targets.len()
            invariant
                manager.wf(),
                timestamps@.len() == self.targets().len(),
                self.targets() == self.config.broadcast_targets@,
                datagram::outgoing_views(out@) == bursts(
                    manager@.servers,
                    timestamps@,
                    self.targets().take(i as int),
                ),
        {
            let target = self.config.broadcast_targets[i];
            let ghost sent = datagram::outgoing_views(out@);
            assert(self.targets().take(i + 1).drop_last() == self.targets().take(i as int));
            let mut more = self.send_pong_burst_to(manager, timestamps[i], target);
            let ghost added = datagram::outgoing_views(more@);
            out.append(&mut more);
            assert(datagram::outgoing_views(out@) =~= sent + added);
        }
        assert(self.targets().take(self.targets().len() as int) == self.targets());
        out
    }

    /// One turn of the ping listener: a ping of the game is answered with a burst to where it came
    /// from, anything else is passed over.
    pub fn listener_step(
        &self,
        manager: &ServerManager,
        input: ListenerInput,
        timestamp: Option<u64>,
    ) -> (r: PongStep)
        requires
            manager.wf(),
        ensures
            match input {
                ListenerInput::Datagram { bytes, from } => {
                    r matches PongStep::Send(out) && datagram::outgoing_views(out@) == (if packets::ping_of(
                        bytes@,
                    ) is Ok {
                        burst(manager@.servers, timestamp, from)
                    } else {
                        Seq::empty()
                    })
                },
                _ => r is Stop,
            },
    {
        match input {
            ListenerInput::Shutdown => PongStep::Stop,
            ListenerInput::ReceiveFailed => PongStep::Stop,
            ListenerInput::Datagram { bytes, from } => {
                let is_ping = is_unconnected_ping(bytes) && match parse_unconnected_ping(bytes) {
                    Ok(_) => true,
                    Err(_) => false,
                };
                if is_ping {
                    PongStep::Send(self.send_pong_burst_to(manager, timestamp, from))
                } else {
                    let nothing: Vec<Outgoing> = Vec::new();
                    assert(datagram::outgoing_views(nothing@) =~= Seq::<OutgoingModel>::empty());
                    PongStep::Send(nothing)
                }
            },
        }
    }

    /// One turn of the periodic bursts.
    pub fn step(
        &self,
        manager: &ServerManager,
        shutdown: bool,
        timestamps: &Vec<Option<u64>>,
    ) -> (r: PongStep)
        requires
            manager.wf(),
            timestamps@.len() == self.targets().len(),
        ensures
            if shutdown {
                r is Stop
            } else {
                r matches PongStep::Send(out) && datagram::outgoing_views(out@) == bursts(
                    manager@.servers,
                    timestamps@,
                    self.targets(),
                )
            },
    {
        if shutdown {
            PongStep::Stop
        } else {
            PongStep::Send(self.broadcast_burst(manager, timestamps))
        }
    }
}

/// A burst holds one pong for each world whose text fits into one, in the order of the worlds.
pub proof fn burst_shows_every_world(worlds: Seq<RemoteModel>, timestamp: u64, i: int)
    requires
        forall|k: int|
            0 <= k < worlds.len() ==> manager::synthetic_pong(
                #[trigger] worlds[k],
                timestamp,
            ) is Ok,
    ensures
        pongs(worlds, timestamp).len() == worlds.len(),
        0 <= i < worlds.len() ==> manager::synthetic_pong(worlds[i], timestamp) == Ok::<
            Seq<u8>,
            packets::PacketErrorModel,
        >(pongs(worlds, timestamp)[i]),
    decreases worlds.len(),
{
    if worlds.len() > 0 {
        let front = worlds.drop_last();
        assert forall|k: int| 0 <= k < front.len() implies manager::synthetic_pong(
            #[trigger] front[k],
            timestamp,
        ) is Ok by {
            assert(front[k] == worlds[k]);
        }
        burst_shows_every_world(front, timestamp, i);
        assert(manager::synthetic_pong(worlds[worlds.len() - 1], timestamp) is Ok);
    }
}

/// A world whose text does not fit keeps no other out of the burst.
pub proof fn oversized_world_hides_no_other(
    before: Seq<RemoteModel>,
    oversized: RemoteModel,
    after: Seq<RemoteModel>,
    timestamp: u64,
)
    requires
        manager::synthetic_pong(oversized, timestamp) is Err,
    ensures
        pongs(before.push(oversized) + after, timestamp) == pongs(before + after, timestamp),
    decreases after.len(),
{
    let with = before.push(oversized) + after;
    let without = before + after;
    if after.len() == 0 {
        assert(with.drop_last() == before);
        assert(without == before);
    } else {
        assert(with.drop_last() == before.push(oversized) + after.drop_last());
        assert(without.drop_last() == before + after.drop_last());
        oversized_world_hides_no_other(before, oversized, after.drop_last(), timestamp);
    }
}

/// Without remote worlds nothing is sent.
pub proof fn no_worlds_no_pongs(timestamp: Option<u64>, target: SocketAddr)
    ensures
        burst(Map::<u32, RemoteModel>::empty(), timestamp, target) == Seq::<OutgoingModel>::empty(),
{
    let none = Map::<u32, RemoteModel>::empty();
    assert(manager::lists_in_order(Seq::<RemoteModel>::empty(), none));
    manager::order_is_unique(Seq::<RemoteModel>::empty(), Seq::<RemoteModel>::empty(), none);
    assert(burst(none, timestamp, target) =~= Seq::<OutgoingModel>::empty());
}

/// The pongs of some worlds followed by others are those of the first followed by those of the
/// others; one world alone has its pong, if the text fits, and no worlds have none.
pub proof fn pongs_follow_the_worlds(
    first: Seq<RemoteModel>,
    others: Seq<RemoteModel>,
    world: RemoteModel,
    timestamp: u64,
)
    ensures
        pongs(first + others, timestamp) == pongs(first, timestamp) + pongs(others, timestamp),
        pongs(Seq::empty(), timestamp).len() == 0,
        match manager::synthetic_pong(world, timestamp) {
            Ok(bytes) => pongs(seq![world], timestamp) == seq![bytes],
            Err(_) => pongs(seq![world], timestamp).len() == 0,
        },
    decreases others.len(),
{
    let one = seq![world];
    assert(one.drop_last() =~= Seq::<RemoteModel>::empty());
    reveal_with_fuel(pongs, 2);
    if let Ok(bytes) = manager::synthetic_pong(world, timestamp) {
        assert(pongs(one, timestamp) =~= seq![bytes]);
    }
    if others.len() == 0 {
        assert(first + others =~= first);
        assert(pongs(first, timestamp) + pongs(others, timestamp) =~= pongs(first, timestamp));
    } else {
        let all = first + others;
        assert(all.drop_last() =~= first + others.drop_last());
        pongs_follow_the_worlds(first, others.drop_last(), world, timestamp);
        assert(pongs(all, timestamp) =~= pongs(first, timestamp) + pongs(others, timestamp));
    }
}

/// A burst goes to its target alone and holds the pongs of all worlds in the order of their client
/// ids, all with the same clock reading; without one it is empty.
pub proof fn burst_goes_to_its_target(
    servers: Map<u32, RemoteModel>,
    worlds: Seq<RemoteModel>,
    timestamp: u64,
    target: SocketAddr,
    i: int,
)
    requires
        manager::lists_in_order(worlds, servers),
    ensures
        burst(servers, None, target).len() == 0,
        burst(servers, Some(timestamp), target).len() == pongs(worlds, timestamp).len(),
        0 <= i < pongs(worlds, timestamp).len() ==> {
            let sent = burst(servers, Some(timestamp), target)[i];
            sent.to == target && sent.bytes == pongs(worlds, timestamp)[i]
        },
{
    manager::order_is_unique(worlds, worlds, servers);
}

/// The bursts to some targets come one after the other, in the order of the targets, each with the
/// clock reading of its own; no targets get none.
pub proof fn every_target_gets_its_burst(
    servers: Map<u32, RemoteModel>,
    timestamps: Seq<Option<u64>>,
    targets: Seq<SocketAddr>,
    i: int,
)
    requires
        0 <= i < targets.len(),
    ensures
        ({
            let before = bursts(servers, timestamps, targets.take(i));
            let own = burst(servers, timestamps[i], targets[i]);
            let all = bursts(servers, timestamps, targets);
            &&& all.len() >= before.len() + own.len()
            &&& all.take(before.len() as int) == before
            &&& all.subrange(before.len() as int, (before.len() + own.len()) as int) == own
            &&& i == 0 ==> before.len() == 0
            &&& i == targets.len() - 1 ==> all.len() == before.len() + own.len()
        }),
    decreases targets.len(),
{
    let all = bursts(servers, timestamps, targets);
    let front = targets.drop_last();
    let before = bursts(servers, timestamps, targets.take(i));
    let own = burst(servers, timestamps[i], targets[i]);
    if i == targets.len() - 1 {
        assert(targets.take(i) =~= front);
        assert(all =~= before + own);
    } else {
        assert(front.take(i) =~= targets.take(i));
        assert(front[i] == targets[i]);
        every_target_gets_its_burst(servers, timestamps, front, i);
        let early = bursts(servers, timestamps, front);
        let last = burst(servers, timestamps[targets.len() - 1], targets.last());
        assert(all == early + last);
        assert(all.take(before.len() as int) =~= early.take(before.len() as int));
        assert(all.subrange(before.len() as int, (before.len() + own.len()) as int)
            =~= early.subrange(before.len() as int, (before.len() + own.len()) as int));
    }
    assert(targets.take(0).len() == 0);
}

} // verus!
