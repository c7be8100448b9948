//! The servers that a node advertises into the local game.
//!
//! The local game owns its discovery port while its friends list is open. Instead of competing for
//! that port, a node sends discovery responses to the game from a port of its own, at a steady
//! heartbeat.

use std::collections::HashMap;

use vstd::prelude::*;

use crate::addr::SocketAddr;
use crate::datagram;
use crate::datagram::{Outgoing, OutgoingModel};
use crate::maps;
use crate::maps::keys_of;
use crate::node::config::{AdvertisementModel, DiscoveryConfig, ServerAdvertisement};

verus! {

broadcast use vstd::std_specs::hash::group_hash_axioms;

/// One advertised server.
#[derive(Debug)]
pub struct AdvertisedServer {
    /// Sender or network id used in the discovery response.
    pub sender_id: u64,
    /// Metadata encoded into the response.
    pub data: ServerAdvertisement,
}

/// An [`AdvertisedServer`] as mathematical values.
pub struct AdvertisedModel {
    pub sender_id: u64,
    pub data: AdvertisementModel,
}

impl View for AdvertisedServer {
    type V = AdvertisedModel;

    open spec fn view(&self) -> AdvertisedModel {
        AdvertisedModel { sender_id: self.sender_id, data: self.data@ }
    }
}

impl Clone for AdvertisedServer {
    fn clone(&self) -> (r: Self)
        ensures
            r@ == self@,
    {
        AdvertisedServer { sender_id: self.sender_id, data: self.data.clone() }
    }
}

/// The views of some advertised servers.
pub open spec fn advertised_views(v: Seq<AdvertisedServer>) -> Seq<AdvertisedModel> {
    v.map_values(|s: AdvertisedServer| s@)
}

/// The ids of some advertised servers.
pub open spec fn sender_ids(v: Seq<AdvertisedModel>) -> Seq<u64> {
    v.map_values(|s: AdvertisedModel| s.sender_id)
}

/// An advertisement together with its encoded discovery response, which is made once and not on
/// every heartbeat.
#[derive(Debug)]
pub struct CachedAdvertisement {
    pub data: ServerAdvertisement,
    pub packet: Vec<u8>,
}

/// A [`CachedAdvertisement`] as mathematical values.
pub struct CachedModel {
    pub data: AdvertisementModel,
    pub packet: Seq<u8>,
}

impl View for CachedAdvertisement {
    type V = CachedModel;

    open spec fn view(&self) -> CachedModel {
        CachedModel { data: self.data@, packet: self.packet@ }
    }
}

/// The bytes of a response that could be encoded, if it could.
pub open spec fn packet_view(packet: Option<Vec<u8>>) -> Option<Seq<u8>> {
    match packet {
        Some(p) => Some(p@),
        None => None,
    }
}

/// The registry after a server was advertised, whose response is `packet` if it could be encoded.
pub open spec fn advertised_also(
    m: Map<u64, CachedModel>,
    s: AdvertisedModel,
    packet: Option<Seq<u8>>,
) -> Map<u64, CachedModel> {
    match packet {
        Some(p) => m.insert(s.sender_id, CachedModel { data: s.data, packet: p }),
        None => m,
    }
}

/// Whether the registry holds just this advertisement.
pub open spec fn unchanged(m: Map<u64, CachedModel>, s: AdvertisedModel) -> bool {
    m.contains_key(s.sender_id) && m[s.sender_id].data == s.data
}

/// The registry after a server was advertised, unless it was so already.
pub open spec fn refreshed(
    m: Map<u64, CachedModel>,
    s: AdvertisedModel,
    packet: Option<Seq<u8>>,
) -> Map<u64, CachedModel> {
    if unchanged(m, s) {
        m
    } else {
        advertised_also(m, s, packet)
    }
}

/// The registry after some servers were advertised, one after the other.
pub open spec fn refreshed_all(
    m: Map<u64, CachedModel>,
    entries: Seq<AdvertisedModel>,
    packets: Seq<Option<Seq<u8>>>,
) -> Map<u64, CachedModel>
    decreases entries.len(),
{
    if entries.len() == 0 {
        m
    } else {
        refreshed(
            refreshed_all(m, entries.drop_last(), packets.drop_last()),
            entries.last(),
            packets.last(),
        )
    }
}

/// The registry with the listed servers only.
pub open spec fn retained(m: Map<u64, CachedModel>, entries: Seq<AdvertisedModel>) -> Map<
    u64,
    CachedModel,
> {
    m.filter_keys(|id: u64| sender_ids(entries).contains(id))
}

/// The registry after the listed servers took the place of all others.
pub open spec fn replaced(
    m: Map<u64, CachedModel>,
    entries: Seq<AdvertisedModel>,
    packets: Seq<Option<Seq<u8>>>,
) -> Map<u64, CachedModel> {
    refreshed_all(retained(m, entries), entries, packets)
}

/// Whether the encoder may answer this for a server.
pub open spec fn encodes_to<F: Fn(&AdvertisedServer) -> Option<Vec<u8>>>(
    encode: F,
    s: AdvertisedServer,
    packet: Option<Seq<u8>>,
) -> bool {
    exists|p: Option<Vec<u8>>| #[trigger]
        call_ensures(encode, (&s,), p) && packet_view(p) == packet
}

/// Whether each response is what the encoder answered, for every server that had to be encoded.
pub open spec fn encoded_by<F: Fn(&AdvertisedServer) -> Option<Vec<u8>>>(
    encode: F,
    m: Map<u64, CachedModel>,
    entries: Seq<AdvertisedServer>,
    packets: Seq<Option<Seq<u8>>>,
) -> bool {
    &&& packets.len() == entries.len()
    &&& forall|i: int|
        0 <= i < entries.len() && !unchanged(
            refreshed_all(m, advertised_views(entries.take(i)), packets.take(i)),
            entries[i]@,
        ) ==> encodes_to(encode, #[trigger] entries[i], packets[i])
}

/// Whether an advertisement's response is one that the encoder answered for just this metadata under
/// this id.
pub open spec fn made_by<F: Fn(&AdvertisedServer) -> Option<Vec<u8>>>(
    encode: F,
    sender_id: u64,
    cached: CachedModel,
) -> bool {
    exists|s: AdvertisedServer|
        {
            &&& #[trigger] encodes_to(encode, s, Some(cached.packet))
            &&& s@ == (AdvertisedModel { sender_id, data: cached.data })
        }
}

/// Whether every response of the registry was made by the encoder from what is advertised.
pub open spec fn all_made_by<F: Fn(&AdvertisedServer) -> Option<Vec<u8>>>(
    encode: F,
    m: Map<u64, CachedModel>,
) -> bool {
    forall|id: u64| #[trigger] m.contains_key(id) ==> made_by(encode, id, m[id])
}

/// One heartbeat: each response to every target, in the order of the listed ids.
pub open spec fn heartbeat(
    m: Map<u64, CachedModel>,
    ids: Seq<u64>,
    targets: Seq<SocketAddr>,
) -> Seq<OutgoingModel>
    decreases ids.len(),
{
    if ids.len() == 0 {
        Seq::empty()
    } else {
        heartbeat(m, ids.drop_last(), targets) + targets.map_values(
            |to: SocketAddr| OutgoingModel { to, bytes: m[ids.last()].packet },
        )
    }
}

/// A [`DiscoveryService`] as mathematical values.
pub struct DiscoveryModel {
    pub advertised: Map<u64, CachedModel>,
    /// Whether a heartbeat was started and not yet waited for.
    pub running: bool,
    /// Whether heartbeats are to end.
    pub cancelled: bool,
}

/// The registry of advertised servers and the state of its heartbeat.
pub struct DiscoveryService {
    config: DiscoveryConfig,
    advertised: HashMap<u64, CachedAdvertisement>,
    running: bool,
    cancelled: bool,
}

impl View for DiscoveryService {
    type V = DiscoveryModel;

    closed spec fn view(&self) -> DiscoveryModel {
        DiscoveryModel {
            advertised: self.advertised@.map_values(|c: CachedAdvertisement| c@),
            running: self.running,
            cancelled: self.cancelled,
        }
    }
}

impl DiscoveryService {
    /// Where heartbeats go.
    pub closed spec fn targets(&self) -> Seq<SocketAddr> {
        self.config.local_targets@
    }

    /// What the service was started with.
    pub closed spec fn settings(&self) -> DiscoveryConfig {
        self.config
    }

    /// A service that advertises nothing.
    pub fn new(config: DiscoveryConfig) -> (r: Self)
        ensures
            r.settings() == config,
            r.targets() == config.local_targets@,
            r@.advertised == Map::<u64, CachedModel>::empty(),
            !r@.running,
            !r@.cancelled,
    {
        let r = DiscoveryService {
            config,
            advertised: HashMap::new(),
            running: false,
            cancelled: false,
        };
        assert(r@.advertised =~= Map::<u64, CachedModel>::empty());
        r
    }

    pub fn config(&self) -> (r: &DiscoveryConfig)
        ensures
            *r == self.settings(),
            r.local_targets@ == self.targets(),
    {
        &self.config
    }

    /// Advertises a server under an id. A response that could not be encoded changes nothing.
    pub fn advertise(&mut self, sender_id: u64, data: ServerAdvertisement, packet: Option<Vec<u8>>)
        ensures
            final(self).settings() == old(self).settings(),
            final(self).targets() == old(self).targets(),
            final(self)@ == (DiscoveryModel {
                advertised: advertised_also(
                    old(self)@.advertised,
                    (AdvertisedModel { sender_id, data: data@ }),
                    packet_view(packet),
                ),
                ..old(self)@
            }),
    {
        let ghost s = AdvertisedModel { sender_id, data: data@ };
        let ghost bytes = packet_view(packet);
        if let Some(packet) = packet {
            self.advertised.insert(sender_id, CachedAdvertisement { data, packet });
        }
        assert(self@.advertised =~= advertised_also(old(self)@.advertised, s, bytes));
    }

    /// Advertises new metadata of a host.
    pub fn update_host(
        &mut self,
        sender_id: u64,
        data: ServerAdvertisement,
        packet: Option<Vec<u8>>,
    )
        ensures
            final(self).settings() == old(self).settings(),
            final(self).targets() == old(self).targets(),
            final(self)@ == (DiscoveryModel {
                advertised: advertised_also(
                    old(self)@.advertised,
                    (AdvertisedModel { sender_id, data: data@ }),
                    packet_view(packet),
                ),
                ..old(self)@
            }),
    {
        self.advertise(sender_id, data, packet);
    }

    /// Takes a server out.
    pub fn unadvertise(&mut self, sender_id: u64)
        ensures
            final(self).settings() == old(self).settings(),
            final(self).targets() == old(self).targets(),
            final(self)@ == (DiscoveryModel {
                advertised: old(self)@.advertised.remove(sender_id),
                ..old(self)@
            }),
    {
        self.advertised.remove(&sender_id);
        assert(self@.advertised =~= old(self)@.advertised.remove(sender_id));
    }

    /// Whether a server is advertised just so.
    pub fn is_unchanged(&self, entry: &AdvertisedServer) -> (r: bool)
        ensures
            r == unchanged(self@.advertised, entry@),
    {
        match self.advertised.get(&entry.sender_id) {
            Some(existing) => existing.data == entry.data,
            None => false,
        }
    }

    /// Advertises a server unless it is advertised just so.
    pub fn refresh(&mut self, entry: AdvertisedServer, packet: Option<Vec<u8>>)
        ensures
            final(self).settings() == old(self).settings(),
            final(self).targets() == old(self).targets(),
            final(self)@ == (DiscoveryModel {
                advertised: refreshed(old(self)@.advertised, entry@, packet_view(packet)),
                ..old(self)@
            }),
    {
        if !self.is_unchanged(&entry) {
            self.advertise(entry.sender_id, entry.data, packet);
        }
    }

    /// Takes out every server that is not listed.
    fn retain(&mut self, entries: &Vec<AdvertisedServer>)
        ensures
            final(self).settings() == old(self).settings(),
            final(self).targets() == old(self).targets(),
            final(self)@ == (DiscoveryModel {
                advertised: retained(old(self)@.advertised, advertised_views(entries@)),
                ..old(self)@
            }),
    {
        let ghost before = self@.advertised;
        let ghost unlisted = |id: u64| !sender_ids(advertised_views(entries@)).contains(id);
        let ids = keys_of(&self.advertised);
        assert(before.dom() =~= self.advertised@.dom());
        proof {
            maps::walk_begins(before, ids@, unlisted);
        }
        for i in 0..ids.len()
            invariant
                self.settings() == old(self).settings(),
                self.targets() == old(self).targets(),
                self@.running == old(self)@.running,
                self@.cancelled == old(self)@.cancelled,
                maps::lists(ids@, before.dom()),
                forall|id: u64| #[trigger]
                    unlisted(id) == !sender_ids(advertised_views(entries@)).contains(id),
                self@.advertised == maps::kept(before, ids@.take(i as int), unlisted),
        {
            let id = ids[i];
            let ghost held = self@.advertised;
            proof {
                maps::walk_goes_on(before, ids@, i as int, unlisted);
            }
            let listed = lists_id(entries, id);
            assert(unlisted(id) == !listed);
            if !listed {
                self.advertised.remove(&id);
                assert(self@.advertised =~= held.remove(id));
            }
        }
        proof {
            maps::walk_ends(before, ids@, unlisted);
            assert(self@.advertised =~= retained(before, advertised_views(entries@)));
        }
    }

    /// Advertises a server with the encoder's answer, which is asked for only if the server is not
    /// advertised just so.
    fn refresh_by<F: Fn(&AdvertisedServer) -> Option<Vec<u8>>>(
        &mut self,
        entry: &AdvertisedServer,
        encode: &F,
    ) -> (packet: Ghost<Option<Seq<u8>>>)
        requires
            call_requires(*encode, (entry,)),
        ensures
            final(self).settings() == old(self).settings(),
            final(self).targets() == old(self).targets(),
            final(self)@ == (DiscoveryModel {
                advertised: refreshed(old(self)@.advertised, entry@, packet@),
                ..old(self)@
            }),
            unchanged(old(self)@.advertised, entry@) || encodes_to(*encode, *entry, packet@),
    {
        if self.is_unchanged(entry) {
            return Ghost(None);
        }
        let packet = encode(entry);
        let ghost bytes = packet_view(packet);
        assert(encodes_to(*encode, *entry, bytes));
        let copy = entry.clone();
        self.advertise(copy.sender_id, copy.data, packet);
        Ghost(bytes)
    }

    /// Puts the listed servers in the place of all others. A server that is advertised just so is
    /// not encoded again; one that cannot be encoded stays as it was. Where every response was made by
    /// the encoder before, every one is so afterwards.
    pub fn replace_all<F: Fn(&AdvertisedServer) -> Option<Vec<u8>>>(
        &mut self,
        entries: Vec<AdvertisedServer>,
        encode: F,
    )
        requires
            forall|s: &AdvertisedServer| #[trigger] call_requires(encode, (s,)),
        ensures
            final(self).settings() == old(self).settings(),
            final(self).targets() == old(self).targets(),
            final(self)@.running == old(self)@.running,
            final(self)@.cancelled == old(self)@.cancelled,
            exists|packets: Seq<Option<Seq<u8>>>|
                {
                    &&& #[trigger] encoded_by(
                        encode,
                        retained(old(self)@.advertised, advertised_views(entries@)),
                        entries@,
                        packets,
                    )
                    &&& final(self)@.advertised == replaced(
                        old(self)@.advertised,
                        advertised_views(entries@),
                        packets,
                    )
                },
            all_made_by(encode, old(self)@.advertised) ==> all_made_by(
                encode,
                final(self)@.advertised,
            ),
    {
        self.retain(&entries);
        let ghost start = self@.advertised;
        let ghost mut packets: Seq<Option<Seq<u8>>> = Seq::empty();
        assert(advertised_views(entries@.take(0)) =~= Seq::<AdvertisedModel>::empty());
        for i in 0..entries.len()
            invariant
                self.settings() == old(self).settings(),
                self.targets() == old(self).targets(),
                self@.running == old(self)@.running,
                self@.cancelled == old(self)@.cancelled,
                forall|s: &AdvertisedServer| #[trigger] call_requires(encode, (s,)),
                encoded_by(encode, start, entries@.take(i as int), packets),
                self@.advertised == refreshed_all(
                    start,
                    advertised_views(entries@.take(i as int)),
                    packets,
                ),
        {
            let ghost done = packets;
            let ghost so_far = advertised_views(entries@.take(i as int));
            assert(advertised_views(entries@.take(i + 1)) =~= so_far.push(entries@[i as int]@));
            assert(advertised_views(entries@.take(i + 1)).drop_last() =~= so_far);
            let Ghost(packet) = self.refresh_by(&entries[i], &encode);
            proof {
                packets = done.push(packet);
                assert(packets.drop_last() =~= done);
            }
            proof {
                encoding_extends(encode, start, entries@, i as int, done, packets);
            }
        }
        proof {
            assert(entries@.take(entries@.len() as int) == entries@);
            if all_made_by(encode, old(self)@.advertised) {
                replacement_keeps_responses_true(
                    encode,
                    old(self)@.advertised,
                    entries@,
                    packets,
                );
            }
        }
    }

    /// All advertised servers, in whatever order they come.
    pub fn advertised(&self) -> (r: Vec<AdvertisedServer>)
        ensures
            maps::lists(sender_ids(advertised_views(r@)), self@.advertised.dom()),
            forall|i: int|
                0 <= i < r@.len() ==> (#[trigger] r@[i])@.data
                    == self@.advertised[r@[i].sender_id].data,
    {
        let ids = keys_of(&self.advertised);
        assert(self@.advertised.dom() =~= self.advertised@.dom());
        let mut out: Vec<AdvertisedServer> = Vec::new();
        for i in 0..ids.len()
            invariant
                maps::lists(ids@, self@.advertised.dom()),
                self@.advertised.dom() == self.advertised@.dom(),
                out@.len() == i,
                forall|k: int|
                    0 <= k < i ==> (#[trigger] out@[k]).sender_id == ids@[k] && out@[k]@.data
                        == self@.advertised[ids@[k]].data,
        {
            let sender_id = ids[i];
            assert(ids@.to_set().contains(sender_id));
            if let Some(cached) = self.advertised.get(&sender_id) {
                out.push(AdvertisedServer { sender_id, data: cached.data.clone() });
            }
        }
        assert(sender_ids(advertised_views(out@)) =~= ids@);
        out
    }

    /// One heartbeat: the response of every advertised server, in whatever order they come, each to
    /// every target.
    pub fn broadcast_once(&self) -> (r: Vec<Outgoing>)
        ensures
            exists|ids: Seq<u64>|
                {
                    &&& #[trigger] maps::lists(ids, self@.advertised.dom())
                    &&& datagram::outgoing_views(r@) == heartbeat(
                        self@.advertised,
                        ids,
                        self.targets(),
                    )
                },
    {
        let ids = keys_of(&self.advertised);
        assert(self@.advertised.dom() =~= self.advertised@.dom());
        let mut out: Vec<Outgoing> = Vec::new();
        assert(datagram::outgoing_views(out@) =~= heartbeat(
            self@.advertised,
            ids@.take(0),
            self.targets(),
        ));
        for i in 0..ids.len()
            invariant
                maps::lists(ids@, self@.advertised.dom()),
                self@.advertised.dom() == self.advertised@.dom(),
                datagram::outgoing_views(out@) == heartbeat(
                    self@.advertised,
                    ids@.take(i as int),
                    self.targets(),
                ),
        {
            let ghost sent = datagram::outgoing_views(out@);
            assert(ids@.to_set().contains(ids@[i as int]));
            assert(ids@.take(i + 1).drop_last() == ids@.take(i as int));
            if let Some(cached) = self.advertised.get(&ids[i]) {
                let mut more = to_each(&cached.packet, &self.config.local_targets);
                let ghost added = datagram::outgoing_views(more@);
                out.append(&mut more);
                assert(datagram::outgoing_views(out@) =~= sent + added);
                assert(self@.advertised[ids@[i as int]].packet == cached.packet@);
            }
        }
        assert(ids@.take(ids@.len() as int) == ids@);
        out
    }

    /// Starts the heartbeat, and tells whether it was not running yet.
    pub fn start(&mut self) -> (r: bool)
        ensures
            final(self).settings() == old(self).settings(),
            final(self).targets() == old(self).targets(),
            final(self)@ == (DiscoveryModel { running: true, ..old(self)@ }),
            r == !old(self)@.running,
    {
        if self.running {
            return false;
        }
        self.running = true;
        true
    }

    /// Ends the heartbeat for good, and tells whether one is to be waited for.
    pub fn stop(&mut self) -> (r: bool)
        ensures
            final(self).settings() == old(self).settings(),
            final(self).targets() == old(self).targets(),
            final(self)@ == (DiscoveryModel { running: false, cancelled: true, ..old(self)@ }),
            r == old(self)@.running,
    {
        let was_running = self.running;
        self.cancelled = true;
        self.running = false;
        was_running
    }

    /// One turn of a running heartbeat: nothing once it was ended.
    pub fn heartbeat_step(&self) -> (r: Option<Vec<Outgoing>>)
        ensures
            r is None <==> self@.cancelled,
            r matches Some(out) ==> exists|ids: Seq<u64>|
                {
                    &&& #[trigger] maps::lists(ids, self@.advertised.dom())
                    &&& datagram::outgoing_views(out@) == heartbeat(
                        self@.advertised,
                        ids,
                        self.targets(),
                    )
                },
    {
        if self.cancelled {
            None
        } else {
            Some(self.broadcast_once())
        }
    }
}

/// Whether a server with this id is listed.
fn lists_id(entries: &Vec<AdvertisedServer>, id: u64) -> (r: bool)
    ensures
        r == sender_ids(advertised_views(entries@)).contains(id),
{
    let ghost ids = sender_ids(advertised_views(entries@));
    for i in 0..entries.len()
        invariant
            ids == sender_ids(advertised_views(entries@)),
            forall|k: int| 0 <= k < i ==> #[trigger] ids[k] != id,
    {
        if entries[i].sender_id == id {
            assert(ids[i as int] == id);
            return true;
        }
    }
    false
}

/// The same packet to each target.
fn to_each(packet: &Vec<u8>, targets: &Vec<SocketAddr>) -> (r: Vec<Outgoing>)
    ensures
        datagram::outgoing_views(r@) == targets@.map_values(
            |to: SocketAddr| OutgoingModel { to, bytes: packet@ },
        ),
{
    let mut out: Vec<Outgoing> = Vec::new();
    for i in 0..targets.len()
        invariant
            out@.len() == i,
            forall|k: int|
                0 <= k < i ==> (#[trigger] out@[k]).to == targets@[k] && out@[k].bytes@ == packet@,
    {
        let bytes = vstd::slice::slice_to_vec(packet.as_slice());
        out.push(Outgoing { to: targets[i], bytes });
    }
    assert(datagram::outgoing_views(out@) =~= targets@.map_values(
        |to: SocketAddr| OutgoingModel { to, bytes: packet@ },
    ));
    out
}

/// One more server was encoded, or did not need to be.
proof fn encoding_extends<F: Fn(&AdvertisedServer) -> Option<Vec<u8>>>(
    encode: F,
    m: Map<u64, CachedModel>,
    entries: Seq<AdvertisedServer>,
    i: int,
    done: Seq<Option<Seq<u8>>>,
    packets: Seq<Option<Seq<u8>>>,
)
    requires
        0 <= i < entries.len(),
        encoded_by(encode, m, entries.take(i), done),
        packets.len() == i + 1,
        packets.drop_last() == done,
        unchanged(refreshed_all(m, advertised_views(entries.take(i)), done), entries[i]@)
            || encodes_to(encode, entries[i], packets[i]),
    ensures
        encoded_by(encode, m, entries.take(i + 1), packets),
{
    let longer = entries.take(i + 1);
    assert forall|k: int|
        0 <= k < longer.len() && !unchanged(
            refreshed_all(m, advertised_views(longer.take(k)), packets.take(k)),
            longer[k]@,
        ) implies encodes_to(encode, #[trigger] longer[k], packets[k]) by {
        assert(longer.take(k) =~= entries.take(k));
        if k < i {
            assert(entries.take(i).take(k) =~= entries.take(k));
            assert(packets.take(k) =~= done.take(k));
            assert(entries.take(i)[k] == entries[k]);
        } else {
            assert(packets.take(k) =~= done);
        }
    }
}

/// Nothing but the listed servers is advertised after a replacement, whatever could be encoded.
pub proof fn replacement_keeps_only_listed(
    m: Map<u64, CachedModel>,
    entries: Seq<AdvertisedModel>,
    packets: Seq<Option<Seq<u8>>>,
    id: u64,
)
    requires
        packets.len() == entries.len(),
        replaced(m, entries, packets).contains_key(id),
    ensures
        sender_ids(entries).contains(id),
{
    refreshed_adds_listed(retained(m, entries), entries, packets, id);
    if refreshed_all(retained(m, entries), entries, packets).contains_key(id) {
        if !retained(m, entries).contains_key(id) {
            let k = choose|k: int| 0 <= k < entries.len() && entries[k].sender_id == id;
            assert(sender_ids(entries)[k] == id);
        }
    }
}

proof fn refreshed_adds_listed(
    m: Map<u64, CachedModel>,
    entries: Seq<AdvertisedModel>,
    packets: Seq<Option<Seq<u8>>>,
    id: u64,
)
    requires
        packets.len() == entries.len(),
    ensures
        refreshed_all(m, entries, packets).contains_key(id) ==> m.contains_key(id) || exists|k: int|
            0 <= k < entries.len() && entries[k].sender_id == id,
    decreases entries.len(),
{
    if entries.len() > 0 {
        refreshed_adds_listed(m, entries.drop_last(), packets.drop_last(), id);
        if refreshed_all(m, entries, packets).contains_key(id) && !m.contains_key(id) {
            if entries.last().sender_id == id {
                assert(entries[entries.len() - 1].sender_id == id);
            } else {
                let k = choose|k: int|
                    0 <= k < entries.drop_last().len() && entries.drop_last()[k].sender_id == id;
                assert(entries[k].sender_id == id);
            }
        }
    }
}

/// Whether each listed server could be encoded, or was advertised just so when its turn came.
pub open spec fn none_failed(
    m: Map<u64, CachedModel>,
    entries: Seq<AdvertisedModel>,
    packets: Seq<Option<Seq<u8>>>,
) -> bool {
    forall|i: int|
        0 <= i < entries.len() ==> (#[trigger] packets[i]) is Some || unchanged(
            refreshed_all(m, entries.take(i), packets.take(i)),
            entries[i],
        )
}

/// When every listed server can be encoded or need not be, all of them are advertised, each as it is
/// listed last.
pub proof fn replacement_advertises_all(
    m: Map<u64, CachedModel>,
    entries: Seq<AdvertisedModel>,
    packets: Seq<Option<Seq<u8>>>,
    k: int,
)
    requires
        packets.len() == entries.len(),
        none_failed(retained(m, entries), entries, packets),
        0 <= k < entries.len(),
        forall|j: int| k < j < entries.len() ==> (#[trigger] entries[j]).sender_id
            != entries[k].sender_id,
    ensures
        unchanged(replaced(m, entries, packets), entries[k]),
{
    refreshed_holds_listed(retained(m, entries), entries, packets, k);
}

proof fn refreshed_holds_listed(
    m: Map<u64, CachedModel>,
    entries: Seq<AdvertisedModel>,
    packets: Seq<Option<Seq<u8>>>,
    k: int,
)
    requires
        packets.len() == entries.len(),
        none_failed(m, entries, packets),
        0 <= k < entries.len(),
        forall|j: int| k < j < entries.len() ==> (#[trigger] entries[j]).sender_id
            != entries[k].sender_id,
    ensures
        unchanged(refreshed_all(m, entries, packets), entries[k]),
    decreases entries.len(),
{
    let front = entries.drop_last();
    let known = packets.drop_last();
    if k < entries.len() - 1 {
        assert forall|i: int| 0 <= i < front.len() implies (#[trigger] known[i]) is Some
            || unchanged(refreshed_all(m, front.take(i), known.take(i)), front[i]) by {
            assert(known[i] == packets[i]);
            assert(front.take(i) =~= entries.take(i));
            assert(known.take(i) =~= packets.take(i));
        }
        assert forall|j: int| k < j < front.len() implies (#[trigger] front[j]).sender_id
            != front[k].sender_id by {
            assert(front[j] == entries[j]);
        }
        refreshed_holds_listed(m, front, known, k);
        assert(front[k] == entries[k]);
        assert(entries[entries.len() - 1].sender_id != entries[k].sender_id);
    } else {
        assert(packets[k] is Some || unchanged(
            refreshed_all(m, entries.take(k), packets.take(k)),
            entries[k],
        ));
        assert(entries.take(k) =~= front);
        assert(packets.take(k) =~= known);
    }
}

/// The response of every advertised server was made from just what is advertised of it: advertising
/// a server with the encoder's answer, and taking one out, keep it so.
pub proof fn responses_stay_true<F: Fn(&AdvertisedServer) -> Option<Vec<u8>>>(
    encode: F,
    m: Map<u64, CachedModel>,
    s: AdvertisedServer,
    packet: Option<Seq<u8>>,
    id: u64,
)
    requires
        all_made_by(encode, m),
        encodes_to(encode, s, packet),
    ensures
        all_made_by(encode, Map::<u64, CachedModel>::empty()),
        all_made_by(encode, advertised_also(m, s@, packet)),
        all_made_by(encode, m.remove(id)),
{
    let after = advertised_also(m, s@, packet);
    assert forall|k: u64| #[trigger] after.contains_key(k) implies made_by(
        encode,
        k,
        after[k],
    ) by {
        if packet is Some && k == s.sender_id {
            assert(encodes_to(encode, s, Some(after[k].packet)));
        } else {
            assert(m.contains_key(k));
        }
    }
    assert forall|k: u64| #[trigger] m.remove(id).contains_key(k) implies made_by(
        encode,
        k,
        m.remove(id)[k],
    ) by {
        assert(m.contains_key(k));
    }
}

/// A replacement keeps it so that every response was made from just what is advertised.
pub proof fn replacement_keeps_responses_true<F: Fn(&AdvertisedServer) -> Option<Vec<u8>>>(
    encode: F,
    m: Map<u64, CachedModel>,
    entries: Seq<AdvertisedServer>,
    packets: Seq<Option<Seq<u8>>>,
)
    requires
        all_made_by(encode, m),
        encoded_by(encode, retained(m, advertised_views(entries)), entries, packets),
    ensures
        all_made_by(encode, replaced(m, advertised_views(entries), packets)),
{
    let kept = retained(m, advertised_views(entries));
    assert forall|k: u64| #[trigger] kept.contains_key(k) implies made_by(
        encode,
        k,
        kept[k],
    ) by {
        assert(m.contains_key(k));
    }
    refreshing_keeps_responses_true(encode, kept, entries, packets);
}

proof fn refreshing_keeps_responses_true<F: Fn(&AdvertisedServer) -> Option<Vec<u8>>>(
    encode: F,
    m: Map<u64, CachedModel>,
    entries: Seq<AdvertisedServer>,
    packets: Seq<Option<Seq<u8>>>,
)
    requires
        all_made_by(encode, m),
        encoded_by(encode, m, entries, packets),
    ensures
        all_made_by(encode, refreshed_all(m, advertised_views(entries), packets)),
    decreases entries.len(),
{
    if entries.len() > 0 {
        let last = entries.len() - 1;
        let front = entries.drop_last();
        let known = packets.drop_last();
        assert forall|i: int|
            0 <= i < front.len() && !unchanged(
                refreshed_all(m, advertised_views(front.take(i)), known.take(i)),
                front[i]@,
            ) implies encodes_to(encode, #[trigger] front[i], known[i]) by {
            assert(front.take(i) =~= entries.take(i));
            assert(known.take(i) =~= packets.take(i));
            assert(front[i] == entries[i]);
        }
        refreshing_keeps_responses_true(encode, m, front, known);
        let before = refreshed_all(m, advertised_views(front), known);
        assert(advertised_views(entries).drop_last() =~= advertised_views(front));
        assert(entries.take(last) =~= front);
        assert(packets.take(last) =~= known);
        if !unchanged(before, entries[last]@) {
            assert(encodes_to(encode, entries[last], packets[last]));
            responses_stay_true(encode, before, entries[last], packets[last], 0);
        }
    }
}

/// Replacing by nothing takes everything out.
pub proof fn replacing_by_nothing_clears(m: Map<u64, CachedModel>)
    ensures
        replaced(m, Seq::empty(), Seq::empty()) == Map::<u64, CachedModel>::empty(),
{
    assert(replaced(m, Seq::empty(), Seq::empty()) =~= Map::<u64, CachedModel>::empty());
}

/// A server that is listed as it was keeps the response that was made for it, whatever else is listed
/// and could be encoded.
pub proof fn unchanged_server_keeps_its_packet(
    m: Map<u64, CachedModel>,
    entries: Seq<AdvertisedModel>,
    packets: Seq<Option<Seq<u8>>>,
    id: u64,
)
    requires
        packets.len() == entries.len(),
        m.contains_key(id),
        sender_ids(entries).contains(id),
        forall|j: int|
            0 <= j < entries.len() && (#[trigger] entries[j]).sender_id == id ==> entries[j].data
                == m[id].data,
    ensures
        replaced(m, entries, packets).contains_key(id),
        replaced(m, entries, packets)[id] == m[id],
{
    refreshed_keeps_unchanged(retained(m, entries), entries, packets, id);
}

proof fn refreshed_keeps_unchanged(
    m: Map<u64, CachedModel>,
    entries: Seq<AdvertisedModel>,
    packets: Seq<Option<Seq<u8>>>,
    id: u64,
)
    requires
        packets.len() == entries.len(),
        m.contains_key(id),
        forall|j: int|
            0 <= j < entries.len() && (#[trigger] entries[j]).sender_id == id ==> entries[j].data
                == m[id].data,
    ensures
        refreshed_all(m, entries, packets).contains_key(id),
        refreshed_all(m, entries, packets)[id] == m[id],
    decreases entries.len(),
{
    if entries.len() > 0 {
        let front = entries.drop_last();
        assert forall|j: int|
            0 <= j < front.len() && (#[trigger] front[j]).sender_id == id implies front[j].data
            == m[id].data by {
            assert(front[j] == entries[j]);
        }
        refreshed_keeps_unchanged(m, front, packets.drop_last(), id);
        assert(entries.last() == entries[entries.len() - 1]);
    }
}

/// What is advertised is heard at every target in each heartbeat.
pub proof fn heartbeat_reaches_every_target(
    m: Map<u64, CachedModel>,
    ids: Seq<u64>,
    targets: Seq<SocketAddr>,
    i: int,
    j: int,
)
    requires
        0 <= i < ids.len(),
        0 <= j < targets.len(),
    ensures
        heartbeat(m, ids, targets).contains(
            OutgoingModel { to: targets[j], bytes: m[ids[i]].packet },
        ),
        heartbeat(m, ids, targets).len() == ids.len() * targets.len(),
    decreases ids.len(),
{
    heartbeat_len(m, ids, targets);
    let front = heartbeat(m, ids.drop_last(), targets);
    let last = targets.map_values(
        |to: SocketAddr| OutgoingModel { to, bytes: m[ids.last()].packet },
    );
    let wanted = OutgoingModel { to: targets[j], bytes: m[ids[i]].packet };
    if i == ids.len() - 1 {
        assert(last[j] == wanted);
        assert((front + last)[front.len() + j] == wanted);
    } else {
        heartbeat_reaches_every_target(m, ids.drop_last(), targets, i, j);
        let k = choose|k: int| 0 <= k < front.len() && front[k] == wanted;
        assert((front + last)[k] == wanted);
    }
}

proof fn heartbeat_len(m: Map<u64, CachedModel>, ids: Seq<u64>, targets: Seq<SocketAddr>)
    ensures
        heartbeat(m, ids, targets).len() == ids.len() * targets.len(),
    decreases ids.len(),
{
    if ids.len() > 0 {
        heartbeat_len(m, ids.drop_last(), targets);
        assert(ids.len() * targets.len() == (ids.len() - 1) * targets.len() + targets.len())
            by (nonlinear_arith)
            requires
                ids.len() > 0,
        ;
    } else {
        assert(0 * targets.len() == 0) by (nonlinear_arith);
    }
}

/// Advertising a server that could be encoded puts it under its id, with what it says and the
/// response made for it; one that could not be encoded changes nothing, and no other server changes
/// in either case.
pub proof fn advertising_changes_one_server(
    m: Map<u64, CachedModel>,
    s: AdvertisedModel,
    packet: Seq<u8>,
    other: u64,
)
    ensures
        ({
            let after = advertised_also(m, s, Some(packet));
            &&& after.contains_key(s.sender_id)
            &&& after[s.sender_id].data == s.data
            &&& after[s.sender_id].packet == packet
            &&& other != s.sender_id ==> {
                &&& after.contains_key(other) <==> m.contains_key(other)
                &&& m.contains_key(other) ==> after[other] == m[other]
            }
            &&& advertised_also(m, s, None) == m
        }),
{
}

/// A server is advertised just so only where all that is said of it is the same, in every detail.
pub proof fn every_change_is_noticed(m: Map<u64, CachedModel>, s: AdvertisedModel)
    ensures
        unchanged(m, s) <==> {
            &&& m.contains_key(s.sender_id)
            &&& m[s.sender_id].data.server_name == s.data.server_name
            &&& m[s.sender_id].data.level_name == s.data.level_name
            &&& m[s.sender_id].data.game_type == s.data.game_type
            &&& m[s.sender_id].data.player_count == s.data.player_count
            &&& m[s.sender_id].data.max_player_count == s.data.max_player_count
            &&& m[s.sender_id].data.editor_world == s.data.editor_world
            &&& m[s.sender_id].data.hardcore == s.data.hardcore
            &&& m[s.sender_id].data.flag_a == s.data.flag_a
            &&& m[s.sender_id].data.flag_b == s.data.flag_b
            &&& m[s.sender_id].data.session_id == s.data.session_id
            &&& m[s.sender_id].data.transport_layer == s.data.transport_layer
            &&& m[s.sender_id].data.connection_type == s.data.connection_type
        },
{
    let known = m[s.sender_id].data;
    if known.server_name == s.data.server_name && known.level_name == s.data.level_name
        && known.game_type == s.data.game_type && known.player_count == s.data.player_count
        && known.max_player_count == s.data.max_player_count && known.editor_world
        == s.data.editor_world && known.hardcore == s.data.hardcore && known.flag_a
        == s.data.flag_a && known.flag_b == s.data.flag_b && known.session_id
        == s.data.session_id && known.transport_layer == s.data.transport_layer
        && known.connection_type == s.data.connection_type {
        assert(known == s.data);
    }
}

/// Refreshing a server that is advertised just so changes nothing; any other is advertised as it is
/// now, with the new response, if there is one.
pub proof fn refreshing_takes_in_changes(
    m: Map<u64, CachedModel>,
    s: AdvertisedModel,
    packet: Option<Seq<u8>>,
    other: u64,
)
    ensures
        ({
            let after = refreshed(m, s, packet);
            let same = m.contains_key(s.sender_id) && m[s.sender_id].data == s.data;
            &&& same || packet is None ==> after == m
            &&& !same && packet is Some ==> {
                &&& after.contains_key(s.sender_id)
                &&& after[s.sender_id].data == s.data
                &&& after[s.sender_id].packet == packet->0
            }
            &&& other != s.sender_id ==> {
                &&& after.contains_key(other) <==> m.contains_key(other)
                &&& m.contains_key(other) ==> after[other] == m[other]
            }
        }),
{
}

/// What is retained are the servers of which some entry has the id, as they were.
pub proof fn listed_servers_are_retained(
    m: Map<u64, CachedModel>,
    entries: Seq<AdvertisedModel>,
    id: u64,
)
    ensures
        ({
            let after = retained(m, entries);
            &&& after.contains_key(id) <==> m.contains_key(id) && exists|k: int|
                0 <= k < entries.len() && (#[trigger] entries[k]).sender_id == id
            &&& after.contains_key(id) ==> after[id] == m[id]
        }),
{
    let ids = sender_ids(entries);
    if ids.contains(id) {
        let k = choose|k: int| 0 <= k < ids.len() && ids[k] == id;
        assert(entries[k].sender_id == id);
    }
    if exists|k: int| 0 <= k < entries.len() && (#[trigger] entries[k]).sender_id == id {
        let k = choose|k: int| 0 <= k < entries.len() && (#[trigger] entries[k]).sender_id == id;
        assert(ids[k] == id);
    }
}

/// What a list whose ids are all different makes of the registry, for each of its servers: one that
/// was advertised just so keeps its response; any other is advertised anew if it could be encoded,
/// and stays as it was if it could not.
pub proof fn each_listed_server_is_refreshed(
    m: Map<u64, CachedModel>,
    entries: Seq<AdvertisedModel>,
    packets: Seq<Option<Seq<u8>>>,
    k: int,
)
    requires
        packets.len() == entries.len(),
        0 <= k < entries.len(),
        forall|i: int, j: int|
            0 <= i < j < entries.len() ==> (#[trigger] entries[i]).sender_id != (
            #[trigger] entries[j]).sender_id,
    ensures
        ({
            let after = replaced(m, entries, packets);
            let id = entries[k].sender_id;
            let same = m.contains_key(id) && m[id].data == entries[k].data;
            if same || packets[k] is None {
                &&& after.contains_key(id) <==> m.contains_key(id)
                &&& m.contains_key(id) ==> after[id] == m[id]
            } else {
                &&& after.contains_key(id)
                &&& after[id].data == entries[k].data
                &&& after[id].packet == packets[k]->0
            }
        }),
{
    listed_servers_are_retained(m, entries, entries[k].sender_id);
    distinct_entries_are_refreshed(retained(m, entries), entries, packets, k);
}

proof fn distinct_entries_are_refreshed(
    m: Map<u64, CachedModel>,
    entries: Seq<AdvertisedModel>,
    packets: Seq<Option<Seq<u8>>>,
    k: int,
)
    requires
        packets.len() == entries.len(),
        0 <= k < entries.len(),
        forall|i: int, j: int|
            0 <= i < j < entries.len() ==> (#[trigger] entries[i]).sender_id != (
            #[trigger] entries[j]).sender_id,
    ensures
        ({
            let after = refreshed_all(m, entries, packets);
            let wanted = refreshed(m, entries[k], packets[k]);
            let id = entries[k].sender_id;
            &&& after.contains_key(id) <==> wanted.contains_key(id)
            &&& wanted.contains_key(id) ==> after[id] == wanted[id]
        }),
    decreases entries.len(),
{
    let front = entries.drop_last();
    let known = packets.drop_last();
    let id = entries[k].sender_id;
    assert forall|i: int, j: int| 0 <= i < j < front.len() implies (#[trigger] front[i]).sender_id
        != (#[trigger] front[j]).sender_id by {
        assert(front[i] == entries[i] && front[j] == entries[j]);
    }
    if k < entries.len() - 1 {
        distinct_entries_are_refreshed(m, front, known, k);
        assert(front[k] == entries[k] && known[k] == packets[k]);
        assert(entries[entries.len() - 1].sender_id != id);
    } else {
        assert forall|j: int| 0 <= j < front.len() implies (#[trigger] front[j]).sender_id
            != id by {
            assert(front[j] == entries[j]);
        }
        unlisted_is_untouched(m, front, known, id);
    }
}

proof fn unlisted_is_untouched(
    m: Map<u64, CachedModel>,
    entries: Seq<AdvertisedModel>,
    packets: Seq<Option<Seq<u8>>>,
    id: u64,
)
    requires
        packets.len() == entries.len(),
        forall|j: int| 0 <= j < entries.len() ==> (#[trigger] entries[j]).sender_id != id,
    ensures
        refreshed_all(m, entries, packets).contains_key(id) <==> m.contains_key(id),
        m.contains_key(id) ==> refreshed_all(m, entries, packets)[id] == m[id],
    decreases entries.len(),
{
    if entries.len() > 0 {
        let front = entries.drop_last();
        assert forall|j: int| 0 <= j < front.len() implies (#[trigger] front[j]).sender_id
            != id by {
            assert(front[j] == entries[j]);
        }
        unlisted_is_untouched(m, front, packets.drop_last(), id);
        assert(entries[entries.len() - 1].sender_id != id);
    }
}

/// A server that was not advertised under its id gets the encoder's own answer, where it is listed
/// first.
pub proof fn new_server_is_encoded<F: Fn(&AdvertisedServer) -> Option<Vec<u8>>>(
    encode: F,
    m: Map<u64, CachedModel>,
    entries: Seq<AdvertisedServer>,
    packets: Seq<Option<Seq<u8>>>,
    k: int,
)
    requires
        encoded_by(encode, m, entries, packets),
        0 <= k < entries.len(),
        !m.contains_key(entries[k].sender_id),
        forall|j: int|
            0 <= j < k ==> (#[trigger] entries[j]).sender_id != entries[k].sender_id,
    ensures
        packets.len() == entries.len(),
        exists|p: Option<Vec<u8>>| #[trigger]
            call_ensures(encode, (&entries[k],), p) && match p {
                Some(bytes) => packets[k] == Some(bytes@),
                None => packets[k] is None,
            },
{
    let id = entries[k].sender_id;
    let earlier = advertised_views(entries.take(k));
    assert forall|j: int| 0 <= j < earlier.len() implies (#[trigger] earlier[j]).sender_id
        != id by {
        assert(earlier[j] == entries[j]@);
    }
    unlisted_is_untouched(m, earlier, packets.take(k), id);
    assert(encodes_to(encode, entries[k], packets[k]));
    let p = choose|p: Option<Vec<u8>>| #[trigger]
        call_ensures(encode, (&entries[k],), p) && packet_view(p) == packets[k];
    assert(call_ensures(encode, (&entries[k],), p));
}

/// A response that was made by the encoder is its answer for a server with that id and just what is
/// advertised.
pub proof fn response_is_the_encoders<F: Fn(&AdvertisedServer) -> Option<Vec<u8>>>(
    encode: F,
    m: Map<u64, CachedModel>,
    id: u64,
)
    requires
        all_made_by(encode, m),
        m.contains_key(id),
    ensures
        exists|s: AdvertisedServer, p: Vec<u8>| #[trigger]
            call_ensures(encode, (&s,), Some(p)) && s.sender_id == id && s.data@ == m[id].data
                && p@ == m[id].packet,
{
    let cached = m[id];
    assert(made_by(encode, id, cached));
    let s = choose|s: AdvertisedServer|
        {
            &&& #[trigger] encodes_to(encode, s, Some(cached.packet))
            &&& s@ == (AdvertisedModel { sender_id: id, data: cached.data })
        };
    let answer = choose|p: Option<Vec<u8>>| #[trigger]
        call_ensures(encode, (&s,), p) && packet_view(p) == Some(cached.packet);
    assert(answer is Some);
    let p = answer->0;
    assert(call_ensures(encode, (&s,), Some(p)));
}

/// In a heartbeat the responses come in the order of the ids, each to all targets in their order,
/// and nothing else is sent.
pub proof fn heartbeat_is_in_order(
    m: Map<u64, CachedModel>,
    ids: Seq<u64>,
    targets: Seq<SocketAddr>,
    i: int,
    j: int,
)
    requires
        0 <= i < ids.len(),
        0 <= j < targets.len(),
    ensures
        heartbeat(m, ids, targets).len() == ids.len() * targets.len(),
        0 <= i * targets.len() + j < ids.len() * targets.len(),
        heartbeat(m, ids, targets)[i * targets.len() + j].to == targets[j],
        heartbeat(m, ids, targets)[i * targets.len() + j].bytes == m[ids[i]].packet,
    decreases ids.len(),
{
    heartbeat_len(m, ids, targets);
    let n = targets.len() as int;
    let front = heartbeat(m, ids.drop_last(), targets);
    heartbeat_len(m, ids.drop_last(), targets);
    let last = targets.map_values(
        |to: SocketAddr| OutgoingModel { to, bytes: m[ids.last()].packet },
    );
    let whole = heartbeat(m, ids, targets);
    assert(whole == front + last);
    assert(0 <= i * n) by (nonlinear_arith)
        requires
            0 <= i,
            0 <= n,
    ;
    if i == ids.len() - 1 {
        assert(front.len() == i * n);
        assert(whole[i * n + j] == last[j]);
        assert(ids.len() * n == i * n + n) by (nonlinear_arith)
            requires
                ids.len() == i + 1,
        ;
    } else {
        heartbeat_is_in_order(m, ids.drop_last(), targets, i, j);
        assert(whole[i * n + j] == front[i * n + j]);
        assert(ids.drop_last()[i] == ids[i]);
        assert((ids.len() - 1) * n <= ids.len() * n) by (nonlinear_arith)
            requires
                0 <= n,
        ;
    }
}

/// Servers and responses are seen as they are: a server by its id and all that it says, a cached one
/// with its response, and a list with each in its place.
pub proof fn servers_are_seen_as_they_are(
    v: Seq<AdvertisedServer>,
    i: int,
    cached: CachedAdvertisement,
    packet: Vec<u8>,
)
    ensures
        advertised_views(v).len() == v.len(),
        sender_ids(advertised_views(v)).len() == v.len(),
        0 <= i < v.len() ==> {
            &&& advertised_views(v)[i].sender_id == v[i].sender_id
            &&& advertised_views(v)[i].data == v[i].data@
            &&& sender_ids(advertised_views(v))[i] == v[i].sender_id
        },
        cached@.data == cached.data@,
        cached@.packet == cached.packet@,
        packet_view(None) is None,
        packet_view(Some(packet)) == Some(packet@),
{
}

} // verus!
