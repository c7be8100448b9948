//! Finding the world that is open in the local game.

use vstd::prelude::*;

use crate::addr;
use crate::addr::{IpAddr, SocketAddr};
use crate::datagram::Outgoing;
use crate::io_error::IoError;
use crate::lan::identifier;
use crate::lan::identifier::{BedrockIdentifier, IdentifierModel};
use crate::lan::packets;
use crate::lan::packets::{build_unconnected_ping, parse_unconnected_pong};
use crate::time;
use crate::time::{Duration, Instant};

verus! {

/// The client GUID that probes carry.
pub const PROBE_GUID: u64 = 0x1234567890abcdef;

/// What happens to the world that is open in the local game.
#[derive(Debug, PartialEq, Eq)]
pub enum LocalServerEvent {
    ServerStarted(BedrockIdentifier),
    ServerUpdated(BedrockIdentifier),
    ServerStopped,
}

/// A [`LocalServerEvent`] as mathematical values.
pub enum LocalServerEventModel {
    ServerStarted(IdentifierModel),
    ServerUpdated(IdentifierModel),
    ServerStopped,
}

impl View for LocalServerEvent {
    type V = LocalServerEventModel;

    open spec fn view(&self) -> LocalServerEventModel {
        match *self {
            LocalServerEvent::ServerStarted(i) => LocalServerEventModel::ServerStarted(i@),
            LocalServerEvent::ServerUpdated(i) => LocalServerEventModel::ServerUpdated(i@),
            LocalServerEvent::ServerStopped => LocalServerEventModel::ServerStopped,
        }
    }
}

impl Clone for LocalServerEvent {
    fn clone(&self) -> (r: Self)
        ensures
            r@ == self@,
    {
        match self {
            LocalServerEvent::ServerStarted(i) => LocalServerEvent::ServerStarted(i.clone()),
            LocalServerEvent::ServerUpdated(i) => LocalServerEvent::ServerUpdated(i.clone()),
            LocalServerEvent::ServerStopped => LocalServerEvent::ServerStopped,
        }
    }
}

/// What a detector is started with.
#[derive(Clone, Copy, Debug, PartialEq, Eq, Structural)]
pub struct ServerDetectorConfig {
    pub target_addr: SocketAddr,
    pub bind_addr: SocketAddr,
    pub probe_interval: Duration,
    /// A world that has been silent for longer than this counts as closed.
    pub timeout: Duration,
}

impl Default for ServerDetectorConfig {
    fn default() -> (r: Self)
        ensures
            addr::is_loopback_at(r.target_addr, 19132),
            r.bind_addr == (SocketAddr::V4 { ip: 0, port: 0 }),
            r.probe_interval.nanos == 1_500_000_000,
            r.timeout.nanos == 5_000_000_000,
    {
        ServerDetectorConfig {
            target_addr: SocketAddr::new(IpAddr::v4(127, 0, 0, 1), 19132),
            bind_addr: SocketAddr::new(IpAddr::v4(0, 0, 0, 0), 0),
            probe_interval: Duration::from_millis(1500),
            timeout: Duration::from_secs(5),
        }
    }
}

/// The view of an identifier that may be missing.
pub open spec fn identifier_view(i: Option<BedrockIdentifier>) -> Option<IdentifierModel> {
    match i {
        Some(i) => Some(i@),
        None => None,
    }
}

/// The view of an event that may be missing.
pub open spec fn event_view(e: Option<LocalServerEvent>) -> Option<LocalServerEventModel> {
    match e {
        Some(e) => Some(e@),
        None => None,
    }
}

/// The world that answered a probe: what the pong says, if it came from the probed endpoint, carries
/// the probe's timestamp and holds an advertisement that can be read.
pub open spec fn answered(
    target: SocketAddr,
    probe: Option<u64>,
    data: Seq<u8>,
    from: SocketAddr,
) -> Option<IdentifierModel> {
    match packets::pong_of(data) {
        Ok(pong) => if from == target && probe is Some && probe->0 as nat == pong.0 {
            match identifier::identifier_of(pong.2) {
                Ok(m) => Some(m),
                Err(_) => None,
            }
        } else {
            None
        },
        Err(_) => None,
    }
}

/// What a detector knows.
pub struct DetectorModel {
    /// The world that is open.
    pub current: Option<IdentifierModel>,
    /// When it answered last.
    pub last_seen: Option<Instant>,
    /// The timestamp of the probe that an answer is taken for.
    pub last_probe: Option<u64>,
    /// The world that watchers were last shown.
    pub published: Option<IdentifierModel>,
}

/// A detector that knows nothing.
pub open spec fn unaware() -> DetectorModel {
    DetectorModel { current: None, last_seen: None, last_probe: None, published: None }
}

/// The detector at the beginning of a run.
pub open spec fn run_begun(m: DetectorModel) -> DetectorModel {
    DetectorModel { published: m.published, ..unaware() }
}

/// What watchers were last shown, after a world was found or lost: nothing new where nobody
/// watches.
pub open spec fn publish(
    m: DetectorModel,
    world: Option<IdentifierModel>,
    watched: bool,
) -> Option<IdentifierModel> {
    if watched {
        world
    } else {
        m.published
    }
}

/// Whether the world that was seen last has been silent for too long.
pub open spec fn lost(m: DetectorModel, now: Instant, timeout: Duration) -> bool {
    m.last_seen is Some && time::timed_out(m.last_seen->0, now, timeout)
}

/// The detector after a probe was tried.
pub open spec fn after_probe(
    m: DetectorModel,
    timestamp: u64,
    sent: bool,
    now: Instant,
    timeout: Duration,
    watched: bool,
) -> DetectorModel {
    if lost(m, now, timeout) {
        DetectorModel { published: publish(m, None, watched), ..unaware() }
    } else if sent {
        DetectorModel { last_probe: Some(timestamp), ..m }
    } else {
        m
    }
}

/// The detector after a datagram came in.
pub open spec fn after_datagram(
    m: DetectorModel,
    target: SocketAddr,
    data: Seq<u8>,
    from: SocketAddr,
    now: Instant,
    watched: bool,
) -> DetectorModel {
    match answered(target, m.last_probe, data, from) {
        Some(i) => DetectorModel {
            current: Some(i),
            last_seen: Some(now),
            published: publish(m, Some(i), watched),
            ..m
        },
        None => m,
    }
}

/// What the detector announces about a datagram.
pub open spec fn event_on(
    m: DetectorModel,
    target: SocketAddr,
    data: Seq<u8>,
    from: SocketAddr,
) -> Option<LocalServerEventModel> {
    match answered(target, m.last_probe, data, from) {
        Some(i) => match m.current {
            None => Some(LocalServerEventModel::ServerStarted(i)),
            Some(previous) => if previous != i {
                Some(LocalServerEventModel::ServerUpdated(i))
            } else {
                None
            },
        },
        None => None,
    }
}

/// What a running detector is woken by.
pub enum DetectorInput<'a> {
    Shutdown,
    /// It is time for a probe; carries the clock in milliseconds, if it can be read.
    ProbeTick(Option<u64>),
    /// The probe with this timestamp was handed to the network, or could not be.
    ProbeTried { timestamp: u64, sent: bool },
    Datagram { bytes: &'a [u8], from: SocketAddr },
    ReceiveFailed,
}

/// What a running detector does next.
#[derive(Debug)]
pub enum DetectorStep {
    Stop,
    Wait,
    /// The probe is sent, and the outcome handed back.
    Probe { timestamp: u64, ping: Outgoing },
    Announce(LocalServerEvent),
}

/// Looks for the world that is open in the local game.
pub struct ServerDetector {
    config: ServerDetectorConfig,
    current: Option<BedrockIdentifier>,
    last_seen: Option<Instant>,
    last_probe: Option<u64>,
    published: Option<BedrockIdentifier>,
}

impl View for ServerDetector {
    type V = DetectorModel;

    closed spec fn view(&self) -> DetectorModel {
        DetectorModel {
            current: identifier_view(self.current),
            last_seen: self.last_seen,
            last_probe: self.last_probe,
            published: identifier_view(self.published),
        }
    }
}

impl ServerDetector {
    /// A world is known exactly when it is known since when.
    pub open spec fn wf(&self) -> bool {
        self@.current is Some <==> self@.last_seen is Some
    }

    /// What the detector was started with.
    pub closed spec fn settings(&self) -> ServerDetectorConfig {
        self.config
    }

    /// A detector that knows nothing yet. No interval may be zero.
    pub fn bind(config: ServerDetectorConfig) -> (r: Result<Self, IoError>)
        ensures
            match r {
                Ok(detector) => {
                    &&& config.probe_interval.nanos != 0 && config.timeout.nanos != 0
                    &&& detector.wf()
                    &&& detector.settings() == config
                    &&& detector@ == unaware()
                },
                Err(e) => {
                    &&& config.probe_interval.nanos == 0 || config.timeout.nanos == 0
                    &&& e.refuses("detector intervals must be greater than zero"@)
                },
            },
    {
        if config.probe_interval.is_zero() || config.timeout.is_zero() {
            return Err(IoError::InvalidInput("detector intervals must be greater than zero"));
        }
        Ok(
            ServerDetector {
                config,
                current: None,
                last_seen: None,
                last_probe: None,
                published: None,
            },
        )
    }

    pub fn config(&self) -> (r: ServerDetectorConfig)
        ensures
            r == self.settings(),
    {
        self.config
    }

    /// The world that is open, as far as watchers were shown.
    pub fn current_server(&self) -> (r: Option<BedrockIdentifier>)
        ensures
            identifier_view(r) == self@.published,
    {
        match &self.published {
            Some(i) => Some(i.clone()),
            None => None,
        }
    }

    /// Begins a run, which knows of no world yet. Watchers keep seeing what they were shown.
    pub fn begin_run(&mut self)
        ensures
            final(self).wf(),
            final(self).settings() == old(self).settings(),
            final(self)@ == run_begun(old(self)@),
    {
        self.current = None;
        self.last_seen = None;
        self.last_probe = None;
    }

    /// The probe for a clock reading.
    pub fn probe(&self, timestamp: u64) -> (r: Outgoing)
        ensures
            r.to == self.settings().target_addr,
            r.bytes@ == packets::ping_bytes(timestamp as nat, PROBE_GUID as nat),
            r.bytes@ == packets::ping_bytes(timestamp as nat, 0x1234567890abcdef),
    {
        let bytes = match build_unconnected_ping(timestamp, PROBE_GUID) {
            Ok(b) => b,
            Err(_) => Vec::new(),
        };
        Outgoing { to: self.config.target_addr, bytes }
    }

    /// What a single probe found: the world that the reply speaks of, if one came in time and
    /// answers that probe.
    pub fn probe_once(&self, timestamp: u64, reply: Option<(&[u8], SocketAddr)>) -> (r: Option<
        BedrockIdentifier,
    >)
        ensures
            identifier_view(r) == match reply {
                Some((data, from)) => answered(
                    self.settings().target_addr,
                    Some(timestamp),
                    data@,
                    from,
                ),
                None => None,
            },
    {
        match reply {
            Some((data, from)) => read_answer(
                self.config.target_addr,
                Some(timestamp),
                data,
                from,
            ),
            None => None,
        }
    }

    /// Takes note of a probe that was tried, and of a world that has fallen silent. `watched` says
    /// whether anyone is shown the open world.
    pub fn probe_tried(
        &mut self,
        timestamp: u64,
        sent: bool,
        now: Instant,
        watched: bool,
    ) -> (r: Option<LocalServerEvent>)
        requires
            old(self).wf(),
        ensures
            final(self).wf(),
            final(self).settings() == old(self).settings(),
            final(self)@ == after_probe(
                old(self)@,
                timestamp,
                sent,
                now,
                old(self).settings().timeout,
                watched,
            ),
            event_view(r) == (if lost(old(self)@, now, old(self).settings().timeout) {
                Some(LocalServerEventModel::ServerStopped)
            } else {
                None
            }),
    {
        if sent {
            self.last_probe = Some(timestamp);
        }
        if let Some(seen) = self.last_seen {
            if now.timed_out(seen, self.config.timeout) {
                self.last_seen = None;
                self.current = None;
                self.last_probe = None;
                if watched {
                    self.published = None;
                }
                return Some(LocalServerEvent::ServerStopped);
            }
        }
        None
    }

    /// Takes in a datagram.
    pub fn receive(
        &mut self,
        data: &[u8],
        from: SocketAddr,
        now: Instant,
        watched: bool,
    ) -> (r: Option<LocalServerEvent>)
        requires
            old(self).wf(),
        ensures
            final(self).wf(),
            final(self).settings() == old(self).settings(),
            final(self)@ == after_datagram(
                old(self)@,
                old(self).settings().target_addr,
                data@,
                from,
                now,
                watched,
            ),
            event_view(r) == event_on(
                old(self)@,
                old(self).settings().target_addr,
                data@,
                from,
            ),
    {
        let found = match read_answer(self.config.target_addr, self.last_probe, data, from) {
            Some(found) => found,
            None => {
                return None;
            },
        };
        let event = match &self.current {
            None => Some(LocalServerEvent::ServerStarted(found.clone())),
            Some(previous) => if *previous != found {
                Some(LocalServerEvent::ServerUpdated(found.clone()))
            } else {
                None
            },
        };
        self.last_seen = Some(now);
        if watched {
            self.published = Some(found.clone());
        }
        self.current = Some(found);
        event
    }

    /// One turn of a running detector.
    pub fn step(&mut self, input: DetectorInput, now: Instant, watched: bool) -> (r: DetectorStep)
        requires
            old(self).wf(),
        ensures
            final(self).wf(),
            final(self).settings() == old(self).settings(),
            match input {
                DetectorInput::Shutdown => r is Stop && final(self)@ == old(self)@,
                DetectorInput::ReceiveFailed => r is Wait && final(self)@ == old(self)@,
                DetectorInput::ProbeTick(clock) => {
                    &&& final(self)@ == old(self)@
                    &&& match clock {
                        Some(t) => r matches DetectorStep::Probe { timestamp, ping } && timestamp
                            == t && ping.to == old(self).settings().target_addr && ping.bytes@
                            == packets::ping_bytes(t as nat, PROBE_GUID as nat),
                        None => r is Wait,
                    }
                },
                DetectorInput::ProbeTried { timestamp, sent } => {
                    &&& final(self)@ == after_probe(
                        old(self)@,
                        timestamp,
                        sent,
                        now,
                        old(self).settings().timeout,
                        watched,
                    )
                    &&& if lost(old(self)@, now, old(self).settings().timeout) {
                        r matches DetectorStep::Announce(e) && e@
                            == LocalServerEventModel::ServerStopped
                    } else {
                        r is Wait
                    }
                },
                DetectorInput::Datagram { bytes, from } => {
                    let target = old(self).settings().target_addr;
                    &&& final(self)@ == after_datagram(
                        old(self)@,
                        target,
                        bytes@,
                        from,
                        now,
                        watched,
                    )
                    &&& match event_on(old(self)@, target, bytes@, from) {
                        Some(event) => r matches DetectorStep::Announce(e) && e@ == event,
                        None => r is Wait,
                    }
                },
            },
    {
        match input {
            DetectorInput::Shutdown => DetectorStep::Stop,
            DetectorInput::ReceiveFailed => DetectorStep::Wait,
            DetectorInput::ProbeTick(clock) => match clock {
                Some(timestamp) => DetectorStep::Probe { timestamp, ping: self.probe(timestamp) },
                None => DetectorStep::Wait,
            },
            DetectorInput::ProbeTried { timestamp, sent } => match self.probe_tried(
                timestamp,
                sent,
                now,
                watched,
            ) {
                Some(event) => DetectorStep::Announce(event),
                None => DetectorStep::Wait,
            },
            DetectorInput::Datagram { bytes, from } => match self.receive(
                bytes,
                from,
                now,
                watched,
            ) {
                Some(event) => DetectorStep::Announce(event),
                None => DetectorStep::Wait,
            },
        }
    }
}

/// Reads the answer to a probe.
fn read_answer(
    target: SocketAddr,
    probe: Option<u64>,
    data: &[u8],
    from: SocketAddr,
) -> (r: Option<BedrockIdentifier>)
    ensures
        identifier_view(r) == answered(target, probe, data@, from),
{
    if from != target {
        return None;
    }
    match parse_unconnected_pong(data) {
        Ok((timestamp, _guid, message)) => {
            if probe != Some(timestamp) {
                return None;
            }
            match BedrockIdentifier::parse(message.as_str()) {
                Ok(found) => Some(found),
                Err(_) => None,
            }
        },
        Err(_) => None,
    }
}

/// A world that answers a probe from the probed endpoint, with the probe's timestamp and an
/// advertisement whose texts hold no semicolon, is found as it advertises itself.
pub proof fn answering_world_is_found(
    target: SocketAddr,
    timestamp: u64,
    guid: u64,
    world: IdentifierModel,
)
    requires
        identifier::identifier_in_range(world),
        crate::text::free_of(identifier::identifier_texts(world), ';'),
        vstd::utf8::encode_utf8(identifier::identifier_text(world)).len() <= u16::MAX,
    ensures
        answered(
            target,
            Some(timestamp),
            packets::pong_bytes(
                timestamp as nat,
                guid as nat,
                vstd::utf8::encode_utf8(identifier::identifier_text(world)),
            ),
            target,
        ) == Some(world),
{
    let text = identifier::identifier_text(world);
    let pong = packets::pong_bytes(
        timestamp as nat,
        guid as nat,
        vstd::utf8::encode_utf8(text),
    );
    packets::parse_inverts_build_pong(timestamp, guid, text, Seq::<u8>::empty());
    assert(pong + Seq::<u8>::empty() == pong);
    identifier::parse_inverts_serialize(world);
}

/// Only what the probed endpoint answers to the latest probe changes what the detector knows.
pub proof fn unsolicited_datagram_changes_nothing(
    m: DetectorModel,
    target: SocketAddr,
    data: Seq<u8>,
    from: SocketAddr,
    now: Instant,
    watched: bool,
)
    requires
        from != target || m.last_probe is None || (packets::pong_of(data) matches Ok(pong)
            ==> pong.0 != m.last_probe->0 as nat),
    ensures
        after_datagram(m, target, data, from, now, watched) == m,
        event_on(m, target, data, from) is None,
{
}

/// What is announced is what changed: a start where no world was known, an update where another
/// was, and nothing where the same was. Whatever is announced is what is known afterwards.
pub proof fn events_follow_the_current_world(
    m: DetectorModel,
    target: SocketAddr,
    data: Seq<u8>,
    from: SocketAddr,
    now: Instant,
    watched: bool,
)
    ensures
        ({
            let after = after_datagram(m, target, data, from, now, watched);
            match event_on(m, target, data, from) {
                Some(LocalServerEventModel::ServerStarted(i)) => m.current is None && after.current
                    == Some(i),
                Some(LocalServerEventModel::ServerUpdated(i)) => m.current is Some && m.current
                    != Some(i) && after.current == Some(i),
                Some(LocalServerEventModel::ServerStopped) => false,
                None => after.current == m.current,
            }
        }),
{
}

/// A world that answers in a new run is announced as started, whatever an earlier run knew of it.
pub proof fn new_run_starts_afresh(
    m: DetectorModel,
    timestamp: u64,
    now: Instant,
    timeout: Duration,
    watched: bool,
    target: SocketAddr,
    data: Seq<u8>,
)
    ensures
        ({
            let probed = after_probe(run_begun(m), timestamp, true, now, timeout, watched);
            event_on(probed, target, data, target) == match answered(
                target,
                Some(timestamp),
                data,
                target,
            ) {
                Some(i) => Some(LocalServerEventModel::ServerStarted(i)),
                None => None,
            }
        }),
{
}

/// A watcher who was there from the start is always shown the world that is open.
pub proof fn watchers_see_the_current_world(
    m: DetectorModel,
    timestamp: u64,
    sent: bool,
    timeout: Duration,
    target: SocketAddr,
    data: Seq<u8>,
    from: SocketAddr,
    now: Instant,
)
    requires
        m.published == m.current,
    ensures
        ({
            let probed = after_probe(m, timestamp, sent, now, timeout, true);
            let told = after_datagram(m, target, data, from, now, true);
            &&& unaware().published == unaware().current
            &&& probed.published == probed.current
            &&& told.published == told.current
        }),
{
}

/// A world that has fallen silent is forgotten, and no late answer brings it back before another
/// probe was sent.
pub proof fn silent_world_is_forgotten(
    m: DetectorModel,
    timestamp: u64,
    sent: bool,
    now: Instant,
    timeout: Duration,
    target: SocketAddr,
    data: Seq<u8>,
    from: SocketAddr,
    later: Instant,
    watched: bool,
)
    requires
        lost(m, now, timeout),
    ensures
        after_probe(m, timestamp, sent, now, timeout, watched).current is None,
        after_datagram(
            after_probe(m, timestamp, sent, now, timeout, watched),
            target,
            data,
            from,
            later,
            watched,
        ).current is None,
{
}

/// What counts as an answer to a probe: a pong that came from the probed endpoint, carries that
/// probe's timestamp and holds an advertisement that can be read; the world is then as the
/// advertisement says. Without a probe there is no answer.
pub proof fn answer_is_the_probed_worlds(
    target: SocketAddr,
    probe: Option<u64>,
    data: Seq<u8>,
    from: SocketAddr,
    timestamp: u64,
    guid: nat,
    text: Seq<char>,
)
    ensures
        packets::pong_of(data) is Err ==> answered(target, probe, data, from) is None,
        packets::pong_of(data) == Ok::<(nat, nat, Seq<char>), packets::PacketErrorModel>(
            (timestamp as nat, guid, text),
        ) ==> match identifier::identifier_of(text) {
            Ok(world) => answered(target, probe, data, from) == if from == target && probe == Some(
                timestamp,
            ) {
                Some(world)
            } else {
                None
            },
            Err(_) => answered(target, probe, data, from) is None,
        },
{
}

/// A probe that went out while no known world was overdue is the one that counts, whatever was known
/// and probed before; nothing else changes. One that could not be sent changes nothing at all.
pub proof fn sent_probe_is_the_one_that_counts(
    m: DetectorModel,
    timestamp: u64,
    now: Instant,
    timeout: Duration,
    watched: bool,
)
    requires
        m.last_seen is None || now.nanos <= m.last_seen->0.nanos + timeout.nanos,
    ensures
        ({
            let sent = after_probe(m, timestamp, true, now, timeout, watched);
            &&& sent.last_probe == Some(timestamp)
            &&& sent.current == m.current
            &&& sent.last_seen == m.last_seen
            &&& sent.published == m.published
            &&& after_probe(m, timestamp, false, now, timeout, watched) == m
        }),
{
}

/// A world that is overdue when a probe is tried is forgotten, with the time it was seen and every
/// probe, whether or not the probe went out; watchers are shown that it is gone, and without any the
/// last world that was shown stays.
pub proof fn overdue_world_is_dropped(
    m: DetectorModel,
    timestamp: u64,
    sent: bool,
    now: Instant,
    timeout: Duration,
    watched: bool,
)
    requires
        m.last_seen is Some,
        now.nanos > m.last_seen->0.nanos + timeout.nanos,
    ensures
        ({
            let after = after_probe(m, timestamp, sent, now, timeout, watched);
            &&& lost(m, now, timeout)
            &&& after.current is None
            &&& after.last_seen is None
            &&& after.last_probe is None
            &&& watched ==> after.published is None
            &&& !watched ==> after.published == m.published
        }),
{
}

/// What is overdue: a world that was seen, longer ago than the timeout, and nothing else.
pub proof fn only_silence_loses_a_world(m: DetectorModel, now: Instant, timeout: Duration)
    ensures
        lost(m, now, timeout) <==> m.last_seen is Some && now.nanos > m.last_seen->0.nanos
            + timeout.nanos,
{
}

/// The answer to the latest probe is always taken in: the world that it tells of is the open one,
/// seen just then and shown to whoever watches, whatever was known before. It is announced as started
/// where no world was known, as changed where another was, and not at all where it was the same. The
/// probe stays the one that counts.
pub proof fn answer_is_taken_in(
    m: DetectorModel,
    timestamp: u64,
    probed: Instant,
    timeout: Duration,
    target: SocketAddr,
    data: Seq<u8>,
    guid: nat,
    text: Seq<char>,
    now: Instant,
    watched: bool,
)
    requires
        m.last_seen is None || probed.nanos <= m.last_seen->0.nanos + timeout.nanos,
        packets::pong_of(data) == Ok::<(nat, nat, Seq<char>), packets::PacketErrorModel>(
            (timestamp as nat, guid, text),
        ),
        identifier::identifier_of(text) is Ok,
    ensures
        ({
            let world = identifier::identifier_of(text)->Ok_0;
            let waiting = after_probe(m, timestamp, true, probed, timeout, watched);
            let after = after_datagram(waiting, target, data, target, now, watched);
            &&& after.current == Some(world)
            &&& after.last_seen == Some(now)
            &&& after.last_probe == Some(timestamp)
            &&& watched ==> after.published == Some(world)
            &&& !watched ==> after.published == m.published
            &&& m.current is None ==> event_on(waiting, target, data, target) == Some(
                LocalServerEventModel::ServerStarted(world),
            )
            &&& m.current is Some && m.current->0 != world ==> event_on(
                waiting,
                target,
                data,
                target,
            ) == Some(LocalServerEventModel::ServerUpdated(world))
            &&& m.current == Some(world) ==> event_on(waiting, target, data, target) is None
        }),
{
}

/// A probe that was sent, and the answer to it.
pub struct Round {
    pub timestamp: u64,
    pub probed: Instant,
    pub data: Seq<u8>,
    pub answered: Instant,
}

/// Whether the data is an answer to the round's own probe that can be read.
pub open spec fn readable(round: Round) -> bool {
    match packets::pong_of(round.data) {
        Ok(pong) => pong.0 == round.timestamp && identifier::identifier_of(pong.2) is Ok,
        Err(_) => false,
    }
}

/// The world that a readable answer tells of.
pub open spec fn told_by(round: Round) -> IdentifierModel {
    identifier::identifier_of((packets::pong_of(round.data)->Ok_0).2)->Ok_0
}

/// The detector after some rounds of probe and answer.
pub open spec fn after_rounds(
    m: DetectorModel,
    target: SocketAddr,
    timeout: Duration,
    watched: bool,
    rounds: Seq<Round>,
) -> DetectorModel
    decreases rounds.len(),
{
    if rounds.len() == 0 {
        m
    } else {
        let before = after_rounds(m, target, timeout, watched, rounds.drop_last());
        let round = rounds.last();
        after_datagram(
            after_probe(before, round.timestamp, true, round.probed, timeout, watched),
            target,
            round.data,
            target,
            round.answered,
            watched,
        )
    }
}

/// A world that answers every probe, each sent no later than the timeout after the answer before it,
/// is never lost: after any number of rounds it is known as it told of itself last, seen when it
/// answered last, and no probe finds it overdue.
pub proof fn answering_world_is_never_lost(
    m: DetectorModel,
    target: SocketAddr,
    timeout: Duration,
    watched: bool,
    rounds: Seq<Round>,
)
    requires
        rounds.len() > 0,
        m.last_seen is None || rounds[0].probed.nanos <= m.last_seen->0.nanos + timeout.nanos,
        forall|i: int| 0 <= i < rounds.len() ==> readable(#[trigger] rounds[i]),
        forall|i: int, j: int|
            0 <= i && j == i + 1 && j < rounds.len() ==> (#[trigger] rounds[j]).probed.nanos <= (
            #[trigger] rounds[i]).answered.nanos + timeout.nanos,
    ensures
        ({
            let before = after_rounds(m, target, timeout, watched, rounds.drop_last());
            let after = after_rounds(m, target, timeout, watched, rounds);
            &&& after.current == Some(told_by(rounds.last()))
            &&& after.last_seen == Some(rounds.last().answered)
            &&& after.last_probe == Some(rounds.last().timestamp)
            &&& watched ==> after.published == Some(told_by(rounds.last()))
            &&& !lost(before, rounds.last().probed, timeout)
        }),
    decreases rounds.len(),
{
    let earlier = rounds.drop_last();
    if earlier.len() > 0 {
        assert forall|i: int| 0 <= i < earlier.len() implies readable(#[trigger] earlier[i]) by {
            assert(earlier[i] == rounds[i]);
        }
        assert forall|i: int, j: int|
            0 <= i && j == i + 1 && j < earlier.len() implies (#[trigger] earlier[j]).probed.nanos
            <= (#[trigger] earlier[i]).answered.nanos + timeout.nanos by {
            assert(earlier[i] == rounds[i] && earlier[j] == rounds[j]);
        }
        answering_world_is_never_lost(m, target, timeout, watched, earlier);
        assert(earlier.last() == rounds[rounds.len() - 2]);
    }
    assert(rounds.last() == rounds[rounds.len() - 1]);
}

/// A new run knows of no world and waits for no answer; what watchers were shown stays, and a
/// detector that was just bound has shown them nothing.
pub proof fn new_run_knows_nothing(m: DetectorModel)
    ensures
        run_begun(m).current is None,
        run_begun(m).last_seen is None,
        run_begun(m).last_probe is None,
        run_begun(m).published == m.published,
        unaware().current is None,
        unaware().last_seen is None,
        unaware().last_probe is None,
        unaware().published is None,
{
}

/// What is told of a world is told as it is: a start and an update with the world, a stop without,
/// and nothing where there is nothing.
pub proof fn events_are_seen_as_they_are(e: LocalServerEvent, world: BedrockIdentifier)
    ensures
        event_view(None) is None,
        event_view(Some(e)) == Some(e@),
        identifier_view(None) is None,
        identifier_view(Some(world)) == Some(world@),
        match e {
            LocalServerEvent::ServerStarted(i) => e@ == LocalServerEventModel::ServerStarted(i@),
            LocalServerEvent::ServerUpdated(i) => e@ == LocalServerEventModel::ServerUpdated(i@),
            LocalServerEvent::ServerStopped => e@ == LocalServerEventModel::ServerStopped,
        },
{
}

} // verus!
