//! The rendezvous server: who hosts what, and whose signals go where.

use std::collections::HashMap;

use vstd::prelude::*;

use crate::addr::SocketAddr;
use crate::maps;
use crate::maps::keys_of;
use crate::node::discovery;
use crate::node::discovery::{AdvertisedModel, AdvertisedServer};
use crate::node::net::{ClientMessage, ServerMessage};
use crate::text;
use crate::text::hex_char;
use crate::vec_map::VecMap;

verus! {

broadcast use vstd::std_specs::hash::group_hash_axioms;

/// The most relay sessions that are remembered at once. Their keys are chosen by clients, so that
/// without a cap a misbehaving client could make the server remember ever more.
pub const MAX_SESSIONS: usize = 4096;

/// The joiner's and the host's end of a relay session.
#[derive(Clone, Copy, Debug, PartialEq, Eq, Structural)]
pub struct Pairing {
    pub joiner: SocketAddr,
    pub host: SocketAddr,
}

/// A message on its way to a client.
#[derive(Debug)]
pub struct Delivery {
    pub to: SocketAddr,
    pub message: ServerMessage,
}

/// What the server knows: the connected clients, who hosts which id, the record of each id, the
/// relay sessions and the id of the next one.
pub struct RendezvousModel {
    pub clients: Map<SocketAddr, ()>,
    pub hosts: Map<u64, SocketAddr>,
    pub records: Map<u64, AdvertisedModel>,
    pub sessions: Map<u64, Pairing>,
    pub next_session_id: u64,
}

/// Whether the records are those of the hosts, no more sessions are remembered than may be, and
/// all that is known is of connected clients.
pub open spec fn consistent(m: RendezvousModel) -> bool {
    &&& m.hosts.dom() == m.records.dom()
    &&& m.sessions.dom().finite()
    &&& m.sessions.dom().len() <= MAX_SESSIONS
    &&& forall|id: u64| #[trigger]
        m.records.contains_key(id) ==> m.records[id].sender_id == id
    &&& forall|id: u64| #[trigger]
        m.hosts.contains_key(id) ==> m.clients.contains_key(m.hosts[id])
    &&& forall|id: u64| #[trigger]
        m.sessions.contains_key(id) ==> m.clients.contains_key(m.sessions[id].joiner)
            && m.clients.contains_key(m.sessions[id].host)
}

/// Whether a client hosts an id.
pub open spec fn hosts_id(m: RendezvousModel, client: SocketAddr, id: u64) -> bool {
    m.hosts.contains_key(id) && m.hosts[id] == client
}

/// The server after a client hosted a world.
pub open spec fn with_host(
    m: RendezvousModel,
    client: SocketAddr,
    server: AdvertisedModel,
) -> RendezvousModel {
    RendezvousModel {
        hosts: m.hosts.insert(server.sender_id, client),
        records: m.records.insert(server.sender_id, server),
        ..m
    }
}

/// The server after a client told news of a world, which counts only if the client hosts it.
pub open spec fn with_update(
    m: RendezvousModel,
    client: SocketAddr,
    server: AdvertisedModel,
) -> RendezvousModel {
    if hosts_id(m, client, server.sender_id) {
        RendezvousModel { records: m.records.insert(server.sender_id, server), ..m }
    } else {
        m
    }
}

/// The server after a client stopped hosting, which counts only if it did host.
pub open spec fn without_host(m: RendezvousModel, client: SocketAddr, id: u64) -> RendezvousModel {
    if hosts_id(m, client, id) {
        RendezvousModel { hosts: m.hosts.remove(id), records: m.records.remove(id), ..m }
    } else {
        m
    }
}

/// The server after it remembered a session, which it does for a new one only while there is room.
pub open spec fn with_session(m: RendezvousModel, id: u64, pairing: Pairing) -> RendezvousModel {
    if m.sessions.dom().len() < MAX_SESSIONS || m.sessions.contains_key(id) {
        RendezvousModel { sessions: m.sessions.insert(id, pairing), ..m }
    } else {
        m
    }
}

/// The server after it gave out a session id.
pub open spec fn next_session(m: RendezvousModel) -> RendezvousModel {
    RendezvousModel {
        next_session_id: (if m.next_session_id == u64::MAX {
            0
        } else {
            m.next_session_id + 1
        }) as u64,
        ..m
    }
}

/// The server after a client asked to join a world. A new session is remembered while there is
/// room.
pub open spec fn with_join(m: RendezvousModel, client: SocketAddr, target: u64) -> RendezvousModel {
    if m.hosts.contains_key(target) {
        let numbered = next_session(m);
        if m.sessions.dom().len() < MAX_SESSIONS {
            RendezvousModel {
                sessions: m.sessions.insert(
                    m.next_session_id,
                    Pairing { joiner: client, host: m.hosts[target] },
                ),
                ..numbered
            }
        } else {
            numbered
        }
    } else {
        m
    }
}

/// The server after a signal: one that a joiner addresses to a host opens or renews a session.
pub open spec fn with_signal(
    m: RendezvousModel,
    client: SocketAddr,
    target: u64,
    connection_id: u64,
) -> RendezvousModel {
    if target != 0 && m.hosts.contains_key(target) {
        with_session(m, connection_id, Pairing { joiner: client, host: m.hosts[target] })
    } else {
        m
    }
}

/// Where a signal goes: to the host that it names, or, from a host that names none, to the joiner
/// of the session.
pub open spec fn signal_destination(
    m: RendezvousModel,
    target: u64,
    connection_id: u64,
) -> Option<SocketAddr> {
    if target != 0 {
        if m.hosts.contains_key(target) {
            Some(m.hosts[target])
        } else {
            None
        }
    } else if m.sessions.contains_key(connection_id) {
        Some(m.sessions[connection_id].joiner)
    } else {
        None
    }
}

/// The server after a client left: what it hosted and the sessions it took part in are gone.
pub open spec fn without_client(m: RendezvousModel, client: SocketAddr) -> RendezvousModel {
    RendezvousModel {
        clients: m.clients.remove(client),
        hosts: m.hosts.filter_keys(|id: u64| m.hosts[id] != client),
        records: m.records.filter_keys(|id: u64| !hosts_id(m, client, id)),
        sessions: m.sessions.filter_keys(
            |id: u64| m.sessions[id].joiner != client && m.sessions[id].host != client,
        ),
        next_session_id: m.next_session_id,
    }
}

/// The server after a message of a client.
pub open spec fn after_message(
    m: RendezvousModel,
    client: SocketAddr,
    message: ClientMessage,
) -> RendezvousModel {
    match message {
        ClientMessage::Ping => m,
        ClientMessage::RegisterHost(server) => with_host(m, client, server@),
        ClientMessage::UpdateHost(server) => with_update(m, client, server@),
        ClientMessage::UnregisterHost { sender_id } => without_host(m, client, sender_id),
        ClientMessage::ListHosts => m,
        ClientMessage::ConnectRequest { target_sender_id, joiner_network_id } => with_join(
            m,
            client,
            target_sender_id,
        ),
        ClientMessage::Signal { target_sender_id, connection_id, joiner_network_id, data } => {
            with_signal(m, client, target_sender_id, connection_id)
        },
    }
}

/// The lower-case hexadecimal digits of a number, without leading zeros.
pub open spec fn hex(n: nat) -> Seq<char>
    decreases n,
{
    if n < 16 {
        seq![text::hex_digit(n)]
    } else {
        hex(n / 16).push(text::hex_digit(n % 16))
    }
}

/// What a client is told that wants to join a world that nobody hosts.
pub open spec fn unknown_host(target: u64) -> Seq<char> {
    "no such host: 0x"@ + hex(target as nat)
}

/// Whether this is what is sent on a message of a client.
pub open spec fn answers(
    m: RendezvousModel,
    client: SocketAddr,
    message: ClientMessage,
    sent: Seq<Delivery>,
) -> bool {
    match message {
        ClientMessage::Ping => sent.len() == 1 && sent[0].to == client && sent[0].message is Pong,
        ClientMessage::RegisterHost(server) => {
            &&& sent.len() == 1
            &&& sent[0].to == client
            &&& sent[0].message == (ServerMessage::Registered { sender_id: server@.sender_id })
        },
        ClientMessage::UpdateHost(server) => sent.len() == 0,
        ClientMessage::UnregisterHost { sender_id } => sent.len() == 0,
        ClientMessage::ListHosts => {
            &&& sent.len() == 1
            &&& sent[0].to == client
            &&& sent[0].message matches ServerMessage::HostList(list) && lists_records(
                list@,
                m.records,
            )
        },
        ClientMessage::ConnectRequest { target_sender_id, joiner_network_id } => {
            if m.hosts.contains_key(target_sender_id) {
                &&& sent.len() == 2
                &&& sent[0].to == m.hosts[target_sender_id]
                &&& sent[0].message == (ServerMessage::IncomingJoin {
                    joiner_network_id,
                    session_id: m.next_session_id,
                })
                &&& sent[1].to == client
                &&& sent[1].message == (ServerMessage::JoinAccepted {
                    session_id: m.next_session_id,
                })
            } else {
                &&& sent.len() == 1
                &&& sent[0].to == client
                &&& sent[0].message matches ServerMessage::Error(words) && words@ == unknown_host(
                    target_sender_id,
                )
            }
        },
        ClientMessage::Signal { target_sender_id, connection_id, joiner_network_id, data } => {
            match signal_destination(m, target_sender_id, connection_id) {
                Some(to) => {
                    &&& sent.len() == 1
                    &&& sent[0].to == to
                    &&& sent[0].message == (ServerMessage::Signal {
                        connection_id,
                        joiner_network_id,
                        data,
                    })
                },
                None => sent.len() == 0,
            }
        },
    }
}

/// Whether the list holds each record once.
pub open spec fn lists_records(
    list: Seq<AdvertisedServer>,
    records: Map<u64, AdvertisedModel>,
) -> bool {
    &&& maps::lists(discovery::sender_ids(discovery::advertised_views(list)), records.dom())
    &&& forall|i: int| 0 <= i < list.len() ==> (#[trigger] list[i])@ == records[list[i].sender_id]
}

/// What the rendezvous server knows of its clients.
pub struct Registry {
    clients: VecMap<SocketAddr, ()>,
    hosts: HashMap<u64, SocketAddr>,
    host_records: HashMap<u64, AdvertisedServer>,
    sessions: HashMap<u64, Pairing>,
    next_session_id: u64,
}

impl View for Registry {
    type V = RendezvousModel;

    closed spec fn view(&self) -> RendezvousModel {
        RendezvousModel {
            clients: self.clients@,
            hosts: self.hosts@,
            records: self.host_records@.map_values(|s: AdvertisedServer| s@),
            sessions: self.sessions@,
            next_session_id: self.next_session_id,
        }
    }
}

fn push_hex(out: &mut String, n: u64)
    ensures
        final(out)@ == old(out)@ + hex(n as nat),
    decreases n,
{
    if n >= 16 {
        push_hex(out, n / 16);
    }
    let c = hex_char((n % 16) as u8);
    let ghost before = out@;
    out.push(c);
    assert(out@ =~= before + seq![c]);
}

impl Registry {
    /// Whether what is known is consistent and each client is known once.
    pub closed spec fn wf(&self) -> bool {
        &&& self.clients.wf()
        &&& consistent(self@)
    }

    /// What every server knows is consistent.
    pub proof fn registry_is_consistent(&self)
        requires
            self.wf(),
        ensures
            consistent(self@),
    {
    }

    /// A server without clients, whose first session has the id 1.
    pub fn new() -> (r: Self)
        ensures
            r.wf(),
            r@.clients == Map::<SocketAddr, ()>::empty(),
            r@.hosts == Map::<u64, SocketAddr>::empty(),
            r@.records == Map::<u64, AdvertisedModel>::empty(),
            r@.sessions == Map::<u64, Pairing>::empty(),
            r@.next_session_id == 1,
    {
        let r = Registry {
            clients: VecMap::new(),
            hosts: HashMap::new(),
            host_records: HashMap::new(),
            sessions: HashMap::new(),
            next_session_id: 1,
        };
        assert(r@.records =~= Map::<u64, AdvertisedModel>::empty());
        assert(r@.hosts.dom() =~= r@.records.dom());
        r
    }

    /// Takes in a client.
    pub fn connect(&mut self, client: SocketAddr)
        requires
            old(self).wf(),
        ensures
            final(self).wf(),
            final(self)@ == (RendezvousModel {
                clients: old(self)@.clients.insert(client, ()),
                ..old(self)@
            }),
    {
        self.clients.insert(client, ());
    }

    /// Whether a client is connected, so that a message for it can be delivered.
    pub fn is_connected(&self, client: SocketAddr) -> (r: bool)
        requires
            self.wf(),
        ensures
            r == self@.clients.contains_key(client),
    {
        match self.clients.get(&client) {
            Some(_) => true,
            None => false,
        }
    }

    /// Whether a client hosts an id.
    fn is_host(&self, client: SocketAddr, id: u64) -> (r: bool)
        ensures
            r == hosts_id(self@, client, id),
    {
        match self.hosts.get(&id) {
            Some(host) => *host == client,
            None => false,
        }
    }

    /// Handles a message of a connected client, and says what is to be sent to whom.
    pub fn handle_message(&mut self, client: SocketAddr, message: ClientMessage) -> (r: Vec<
        Delivery,
    >)
        requires
            old(self).wf(),
            old(self)@.clients.contains_key(client),
        ensures
            final(self).wf(),
            final(self)@ == after_message(old(self)@, client, message),
            answers(old(self)@, client, message, r@),
    {
        let ghost before = self@;
        let mut out: Vec<Delivery> = Vec::new();
        match message {
            ClientMessage::Ping => {
                out.push(Delivery { to: client, message: ServerMessage::Pong });
            },
            ClientMessage::RegisterHost(server) => {
                let sender_id = server.sender_id;
                let ghost model = server@;
                self.hosts.insert(sender_id, client);
                self.host_records.insert(sender_id, server);
                assert(self@.records =~= before.records.insert(sender_id, model));
                assert(self@.hosts.dom() =~= self@.records.dom());
                out.push(
                    Delivery { to: client, message: ServerMessage::Registered { sender_id } },
                );
            },
            ClientMessage::UpdateHost(server) => {
                if self.is_host(client, server.sender_id) {
                    let sender_id = server.sender_id;
                    let ghost model = server@;
                    self.host_records.insert(sender_id, server);
                    assert(self@.records =~= before.records.insert(sender_id, model));
                    assert(before.records.dom().contains(sender_id));
                    assert(self@.hosts.dom() =~= self@.records.dom());
                }
            },
            ClientMessage::UnregisterHost { sender_id } => {
                if self.is_host(client, sender_id) {
                    self.hosts.remove(&sender_id);
                    self.host_records.remove(&sender_id);
                    assert(self@.records =~= before.records.remove(sender_id));
                    assert(self@.hosts.dom() =~= self@.records.dom());
                }
            },
            ClientMessage::ListHosts => {
                let list = self.host_list();
                out.push(Delivery { to: client, message: ServerMessage::HostList(list) });
            },
            ClientMessage::ConnectRequest { target_sender_id, joiner_network_id } => {
                self.join(client, target_sender_id, joiner_network_id, &mut out);
            },
            ClientMessage::Signal { target_sender_id, connection_id, joiner_network_id, data } => {
                let dest = self.route_signal(client, target_sender_id, connection_id);
                if let Some(to) = dest {
                    out.push(
                        Delivery {
                            to,
                            message: ServerMessage::Signal {
                                connection_id,
                                joiner_network_id,
                                data,
                            },
                        },
                    );
                }
            },
        }
        out
    }

    /// Handles a wish to join a world.
    fn join(
        &mut self,
        client: SocketAddr,
        target: u64,
        joiner_network_id: u64,
        out: &mut Vec<Delivery>,
    )
        requires
            old(self).wf(),
            old(self)@.clients.contains_key(client),
            old(out)@.len() == 0,
        ensures
            final(self).wf(),
            final(self)@ == with_join(old(self)@, client, target),
            answers(
                old(self)@,
                client,
                (ClientMessage::ConnectRequest { target_sender_id: target, joiner_network_id }),
                final(out)@,
            ),
    {
        let ghost before = self@;
        let host: Option<SocketAddr> = match self.hosts.get(&target) {
            Some(host) => Some(*host),
            None => None,
        };
        match host {
            Some(host) => {
                let session_id = self.next_session_id;
                self.next_session_id = if session_id == u64::MAX {
                    0
                } else {
                    session_id + 1
                };
                if self.sessions.len() < MAX_SESSIONS {
                    self.sessions.insert(session_id, Pairing { joiner: client, host });
                }
                assert(before.clients.contains_key(before.hosts[target]));
                out.push(
                    Delivery {
                        to: host,
                        message: ServerMessage::IncomingJoin { joiner_network_id, session_id },
                    },
                );
                out.push(
                    Delivery { to: client, message: ServerMessage::JoinAccepted { session_id } },
                );
            },
            None => {
                let mut words = "no such host: 0x".to_owned();
                push_hex(&mut words, target);
                out.push(Delivery { to: client, message: ServerMessage::Error(words) });
            },
        }
    }

    /// Finds where a signal goes, and remembers the session of one that goes to a host.
    fn route_signal(&mut self, client: SocketAddr, target: u64, connection_id: u64) -> (r: Option<
        SocketAddr,
    >)
        requires
            old(self).wf(),
            old(self)@.clients.contains_key(client),
        ensures
            final(self).wf(),
            final(self)@ == with_signal(old(self)@, client, target, connection_id),
            r == signal_destination(old(self)@, target, connection_id),
    {
        let ghost before = self@;
        if target != 0 {
            let host: Option<SocketAddr> = match self.hosts.get(&target) {
                Some(host) => Some(*host),
                None => None,
            };
            if let Some(host) = host {
                if self.sessions.len() < MAX_SESSIONS || self.sessions.contains_key(
                    &connection_id,
                ) {
                    self.sessions.insert(connection_id, Pairing { joiner: client, host });
                    proof {
                        if before.sessions.contains_key(connection_id) {
                            assert(self@.sessions.dom() =~= before.sessions.dom());
                        }
                    }
                }
                assert(before.clients.contains_key(before.hosts[target]));
            }
            host
        } else {
            match self.sessions.get(&connection_id) {
                Some(pairing) => Some(pairing.joiner),
                None => None,
            }
        }
    }

    /// All records, in whatever order they come.
    fn host_list(&self) -> (r: Vec<AdvertisedServer>)
        requires
            self.wf(),
        ensures
            lists_records(r@, self@.records),
    {
        let ids = keys_of(&self.host_records);
        assert(self@.records.dom() =~= self.host_records@.dom());
        let mut out: Vec<AdvertisedServer> = Vec::new();
        for i in 0..ids.len()
            invariant
                self.wf(),
                maps::lists(ids@, self@.records.dom()),
                self@.records.dom() == self.host_records@.dom(),
                out@.len() == i,
                forall|k: int|
                    0 <= k < i ==> (#[trigger] out@[k]).sender_id == ids@[k] && out@[k]@
                        == self@.records[ids@[k]],
        {
            assert(ids@.to_set().contains(ids@[i as int]));
            assert(self@.records.contains_key(ids@[i as int]));
            if let Some(server) = self.host_records.get(&ids[i]) {
                out.push(server.clone());
            }
        }
        assert(discovery::sender_ids(discovery::advertised_views(out@)) =~= ids@);
        out
    }

    /// Forgets a client that has left, what it hosted and the sessions it took part in.
    pub fn disconnect(&mut self, client: SocketAddr)
        requires
            old(self).wf(),
        ensures
            final(self).wf(),
            final(self)@ == without_client(old(self)@, client),
    {
        let ghost before = self@;
        self.clients.remove(&client);
        self.drop_sessions_of(client);
        self.drop_hosts_of(client);
        proof {
            let after = without_client(before, client);
            assert(self@.sessions =~= after.sessions);
            assert(self@.hosts =~= after.hosts);
            assert(self@.records =~= after.records);
            assert(after.hosts.dom() =~= after.records.dom());
            assert(after.sessions.dom().subset_of(before.sessions.dom()));
            vstd::set_lib::lemma_len_subset(after.sessions.dom(), before.sessions.dom());
        }
    }

    /// Forgets the sessions that a client took part in.
    fn drop_sessions_of(&mut self, client: SocketAddr)
        ensures
            final(self).clients == old(self).clients,
            final(self).hosts == old(self).hosts,
            final(self).host_records == old(self).host_records,
            final(self).next_session_id == old(self).next_session_id,
            final(self)@.sessions == without_client(old(self)@, client).sessions,
    {
        let ghost before = self.sessions@;
        let ghost over = |id: u64| before[id].joiner == client || before[id].host == client;
        let ids = keys_of(&self.sessions);
        proof {
            maps::walk_begins(before, ids@, over);
        }
        for i in 0..ids.len()
            invariant
                self.clients == old(self).clients,
                self.hosts == old(self).hosts,
                self.host_records == old(self).host_records,
                self.next_session_id == old(self).next_session_id,
                maps::lists(ids@, before.dom()),
                forall|id: u64| #[trigger]
                    over(id) == (before[id].joiner == client || before[id].host == client),
                self.sessions@ == maps::kept(before, ids@.take(i as int), over),
        {
            let id = ids[i];
            proof {
                maps::walk_goes_on(before, ids@, i as int, over);
            }
            let involved = match self.sessions.get(&id) {
                Some(pairing) => pairing.joiner == client || pairing.host == client,
                None => false,
            };
            assert(over(id) == involved);
            if involved {
                self.sessions.remove(&id);
            }
        }
        proof {
            maps::walk_ends(before, ids@, over);
            assert(self.sessions@ =~= without_client(old(self)@, client).sessions);
        }
    }

    /// Forgets what a client hosted.
    fn drop_hosts_of(&mut self, client: SocketAddr)
        requires
            old(self)@.hosts.dom() == old(self)@.records.dom(),
        ensures
            final(self).clients == old(self).clients,
            final(self).sessions == old(self).sessions,
            final(self).next_session_id == old(self).next_session_id,
            final(self)@.hosts == without_client(old(self)@, client).hosts,
            final(self)@.records == without_client(old(self)@, client).records,
    {
        let ghost start = self@;
        let ghost before = self.hosts@;
        let ghost listed = self@.records;
        let ghost orphan = |id: u64| before[id] == client;
        let ids = keys_of(&self.hosts);
        proof {
            maps::walk_begins(before, ids@, orphan);
            maps::walk_begins(listed, ids@, orphan);
        }
        for i in 0..ids.len()
            invariant
                self.clients == old(self).clients,
                self.sessions == old(self).sessions,
                self.next_session_id == old(self).next_session_id,
                before.dom() == listed.dom(),
                maps::lists(ids@, before.dom()),
                forall|id: u64| #[trigger] orphan(id) == (before[id] == client),
                self.hosts@ == maps::kept(before, ids@.take(i as int), orphan),
                self@.records == maps::kept(listed, ids@.take(i as int), orphan),
        {
            let id = ids[i];
            let ghost held = self@.records;
            proof {
                maps::walk_goes_on(before, ids@, i as int, orphan);
                maps::walk_goes_on(listed, ids@, i as int, orphan);
            }
            let orphaned = match self.hosts.get(&id) {
                Some(host) => *host == client,
                None => false,
            };
            assert(orphan(id) == orphaned);
            if orphaned {
                self.hosts.remove(&id);
                self.host_records.remove(&id);
                assert(self@.records =~= held.remove(id));
            }
        }
        proof {
            maps::walk_ends(before, ids@, orphan);
            maps::walk_ends(listed, ids@, orphan);
            assert(self.hosts@ =~= without_client(start, client).hosts);
            assert(self@.records =~= without_client(start, client).records);
        }
    }
}

/// A world is listed from its registration until its host unregisters it or leaves.
pub proof fn hosted_world_is_listed(m: RendezvousModel, host: SocketAddr, server: AdvertisedModel)
    ensures
        ({
            let hosting = with_host(m, host, server);
            &&& hosting.records.contains_key(server.sender_id)
            &&& hosting.records[server.sender_id] == server
            &&& hosts_id(hosting, host, server.sender_id)
            &&& !without_host(hosting, host, server.sender_id).records.contains_key(
                server.sender_id,
            )
            &&& !without_client(hosting, host).records.contains_key(server.sender_id)
        }),
{
}

/// Only the client that hosts a world can update or withdraw it.
pub proof fn only_the_host_can_withdraw(
    m: RendezvousModel,
    client: SocketAddr,
    server: AdvertisedModel,
)
    requires
        !hosts_id(m, client, server.sender_id),
    ensures
        with_update(m, client, server) == m,
        without_host(m, client, server.sender_id) == m,
{
}

/// What a joiner signals reaches the host, and what the host signals back on the same connection
/// reaches the joiner, while there is room for the session.
pub proof fn signals_go_both_ways(
    m: RendezvousModel,
    joiner: SocketAddr,
    target: u64,
    connection_id: u64,
)
    requires
        target != 0,
        m.hosts.contains_key(target),
        m.sessions.dom().len() < MAX_SESSIONS || m.sessions.contains_key(connection_id),
    ensures
        signal_destination(m, target, connection_id) == Some(m.hosts[target]),
        signal_destination(
            with_signal(m, joiner, target, connection_id),
            0,
            connection_id,
        ) == Some(joiner),
{
}

/// After a client has left, no message leads to it.
pub proof fn departed_client_gets_nothing(
    m: RendezvousModel,
    client: SocketAddr,
    target: u64,
    connection_id: u64,
)
    ensures
        ({
            let after = without_client(m, client);
            &&& !after.clients.contains_key(client)
            &&& !hosts_id(after, client, target)
            &&& signal_destination(after, target, connection_id) != Some(client)
        }),
{
}

/// Registering a world adds it and touches no other: every other world stays with its host and its
/// record, and clients, sessions and the next session id stay as they are. So all worlds that were
/// listed are listed still.
pub proof fn registering_leaves_all_other_worlds(
    m: RendezvousModel,
    client: SocketAddr,
    server: AdvertisedModel,
    other: u64,
)
    ensures
        ({
            let after = with_host(m, client, server);
            let id = server.sender_id;
            &&& after.hosts.contains_key(id) && after.hosts[id] == client
            &&& after.records.contains_key(id) && after.records[id] == server
            &&& other != id ==> {
                &&& after.hosts.contains_key(other) <==> m.hosts.contains_key(other)
                &&& m.hosts.contains_key(other) ==> after.hosts[other] == m.hosts[other]
                &&& after.records.contains_key(other) <==> m.records.contains_key(other)
                &&& m.records.contains_key(other) ==> after.records[other] == m.records[other]
            }
            &&& m.records.contains_key(other) ==> after.records.contains_key(other)
            &&& after.clients == m.clients
            &&& after.sessions == m.sessions
            &&& after.next_session_id == m.next_session_id
        }),
{
}

/// Two worlds that are registered one after the other are both listed, each with its own host and
/// record, in whichever order they came.
pub proof fn registrations_stand_side_by_side(
    m: RendezvousModel,
    first: SocketAddr,
    one: AdvertisedModel,
    second: SocketAddr,
    two: AdvertisedModel,
)
    requires
        one.sender_id != two.sender_id,
    ensures
        ({
            let both = with_host(with_host(m, first, one), second, two);
            &&& both.hosts.contains_key(one.sender_id) && both.hosts[one.sender_id] == first
            &&& both.hosts.contains_key(two.sender_id) && both.hosts[two.sender_id] == second
            &&& both.records.contains_key(one.sender_id) && both.records[one.sender_id] == one
            &&& both.records.contains_key(two.sender_id) && both.records[two.sender_id] == two
            &&& both == with_host(with_host(m, second, two), first, one)
        }),
{
    let both = with_host(with_host(m, first, one), second, two);
    let turned = with_host(with_host(m, second, two), first, one);
    assert(both.hosts =~= turned.hosts);
    assert(both.records =~= turned.records);
}

/// News of a world replace its record, if its host tells them, and nothing else; from anyone else
/// they change nothing.
pub proof fn updating_replaces_one_record(
    m: RendezvousModel,
    client: SocketAddr,
    server: AdvertisedModel,
    other: u64,
)
    ensures
        ({
            let after = with_update(m, client, server);
            let id = server.sender_id;
            let told_by_host = m.hosts.contains_key(id) && m.hosts[id] == client;
            &&& told_by_host ==> after.records.contains_key(id) && after.records[id] == server
            &&& !told_by_host ==> after == m
            &&& other != id ==> {
                &&& after.records.contains_key(other) <==> m.records.contains_key(other)
                &&& m.records.contains_key(other) ==> after.records[other] == m.records[other]
            }
            &&& after.hosts == m.hosts
            &&& after.clients == m.clients
            &&& after.sessions == m.sessions
            &&& after.next_session_id == m.next_session_id
        }),
{
}

/// A world that its host withdraws is gone, and every other stays as it is; one that anyone else
/// withdraws stays.
pub proof fn withdrawing_takes_one_world(
    m: RendezvousModel,
    client: SocketAddr,
    id: u64,
    other: u64,
)
    ensures
        ({
            let after = without_host(m, client, id);
            let by_host = m.hosts.contains_key(id) && m.hosts[id] == client;
            &&& by_host ==> !after.hosts.contains_key(id) && !after.records.contains_key(id)
            &&& !by_host ==> after == m
            &&& other != id ==> {
                &&& after.hosts.contains_key(other) <==> m.hosts.contains_key(other)
                &&& m.hosts.contains_key(other) ==> after.hosts[other] == m.hosts[other]
                &&& after.records.contains_key(other) <==> m.records.contains_key(other)
                &&& m.records.contains_key(other) ==> after.records[other] == m.records[other]
            }
            &&& after.clients == m.clients
            &&& after.sessions == m.sessions
            &&& after.next_session_id == m.next_session_id
        }),
{
}

/// A wish to join a world that is hosted takes the next session id, and while fewer than 4096
/// sessions are remembered the session of that id pairs the joiner with the host; no other session
/// changes. A wish to join a world that nobody hosts changes nothing.
pub proof fn joining_pairs_joiner_and_host(
    m: RendezvousModel,
    client: SocketAddr,
    target: u64,
    other: u64,
)
    ensures
        ({
            let after = with_join(m, client, target);
            let id = m.next_session_id;
            &&& !m.hosts.contains_key(target) ==> after == m
            &&& m.hosts.contains_key(target) ==> {
                &&& after.next_session_id == if m.next_session_id == 0xffff_ffff_ffff_ffff {
                    0
                } else {
                    m.next_session_id + 1
                }
                &&& m.sessions.dom().len() < 4096 ==> {
                    &&& after.sessions.contains_key(id)
                    &&& after.sessions[id].joiner == client
                    &&& after.sessions[id].host == m.hosts[target]
                }
                &&& m.sessions.dom().len() >= 4096 ==> after.sessions == m.sessions
            }
            &&& other != id ==> {
                &&& after.sessions.contains_key(other) <==> m.sessions.contains_key(other)
                &&& m.sessions.contains_key(other) ==> after.sessions[other] == m.sessions[other]
            }
            &&& after.clients == m.clients
            &&& after.hosts == m.hosts
            &&& after.records == m.records
        }),
{
}

/// A signal that names a hosted world goes to its host, and pairs its sender with that host on its
/// connection: always where the connection is known, and otherwise while fewer than 4096 are. One
/// that names no world goes to the joiner of its connection. No signal changes anything else, and
/// only one that names a hosted world changes that.
pub proof fn signal_pairs_sender_and_host(
    m: RendezvousModel,
    client: SocketAddr,
    target: u64,
    connection_id: u64,
    other: u64,
)
    ensures
        ({
            let after = with_signal(m, client, target, connection_id);
            let to_host = target != 0 && m.hosts.contains_key(target);
            let room = m.sessions.dom().len() < 4096 || m.sessions.contains_key(connection_id);
            &&& to_host && room ==> {
                &&& after.sessions.contains_key(connection_id)
                &&& after.sessions[connection_id].joiner == client
                &&& after.sessions[connection_id].host == m.hosts[target]
            }
            &&& !to_host || !room ==> after.sessions == m.sessions
            &&& other != connection_id ==> {
                &&& after.sessions.contains_key(other) <==> m.sessions.contains_key(other)
                &&& m.sessions.contains_key(other) ==> after.sessions[other] == m.sessions[other]
            }
            &&& after.clients == m.clients
            &&& after.hosts == m.hosts
            &&& after.records == m.records
            &&& after.next_session_id == m.next_session_id
            &&& to_host ==> signal_destination(m, target, connection_id) == Some(m.hosts[target])
            &&& target != 0 && !m.hosts.contains_key(target) ==> signal_destination(
                m,
                target,
                connection_id,
            ) is None
            &&& target == 0 && m.sessions.contains_key(connection_id) ==> signal_destination(
                m,
                target,
                connection_id,
            ) == Some(m.sessions[connection_id].joiner)
            &&& target == 0 && !m.sessions.contains_key(connection_id) ==> signal_destination(
                m,
                target,
                connection_id,
            ) is None
        }),
{
}

/// What goes when a client leaves: the client, the worlds that it hosted and the sessions that it
/// took part in. Every other client, world and session stays as it is.
pub proof fn leaving_takes_only_ones_own(
    m: RendezvousModel,
    client: SocketAddr,
    other: SocketAddr,
    id: u64,
)
    requires
        m.hosts.dom() == m.records.dom(),
    ensures
        ({
            let after = without_client(m, client);
            let kept = m.hosts.contains_key(id) && m.hosts[id] != client;
            let held = m.sessions.contains_key(id) && m.sessions[id].joiner != client
                && m.sessions[id].host != client;
            &&& after.clients.contains_key(other) <==> m.clients.contains_key(other) && other
                != client
            &&& after.hosts.contains_key(id) <==> kept
            &&& kept ==> after.hosts[id] == m.hosts[id]
            &&& after.records.contains_key(id) <==> kept
            &&& kept ==> after.records[id] == m.records[id]
            &&& after.sessions.contains_key(id) <==> held
            &&& held ==> after.sessions[id] == m.sessions[id]
            &&& after.next_session_id == m.next_session_id
        }),
{
    assert(m.hosts.dom().contains(id) <==> m.records.dom().contains(id));
}

/// What each message does: registering, updating and withdrawing go by the message's own world and
/// its sender, a wish to join and a signal by the world that they name; a ping and a question for
/// the list change nothing.
pub proof fn messages_do_what_they_say(
    m: RendezvousModel,
    client: SocketAddr,
    message: ClientMessage,
)
    ensures
        match message {
            ClientMessage::Ping => after_message(m, client, message) == m,
            ClientMessage::ListHosts => after_message(m, client, message) == m,
            ClientMessage::RegisterHost(server) => after_message(m, client, message) == with_host(
                m,
                client,
                server@,
            ),
            ClientMessage::UpdateHost(server) => after_message(m, client, message) == with_update(
                m,
                client,
                server@,
            ),
            ClientMessage::UnregisterHost { sender_id } => after_message(m, client, message)
                == without_host(m, client, sender_id),
            ClientMessage::ConnectRequest { target_sender_id, joiner_network_id } => after_message(
                m,
                client,
                message,
            ) == with_join(m, client, target_sender_id),
            ClientMessage::Signal { target_sender_id, connection_id, joiner_network_id, data } => {
                after_message(m, client, message) == with_signal(
                    m,
                    client,
                    target_sender_id,
                    connection_id,
                )
            },
        },
{
}

/// Nobody but the sender of a message and, for a wish to join or a signal, the other side is sent
/// anything: a ping, a registration and a question for the list are answered with one message to
/// their sender, news and a withdrawal with none.
pub proof fn answers_go_to_whom_they_concern(
    m: RendezvousModel,
    client: SocketAddr,
    message: ClientMessage,
    sent: Seq<Delivery>,
)
    requires
        answers(m, client, message, sent),
    ensures
        match message {
            ClientMessage::Ping => sent.len() == 1 && sent[0].to == client
                && sent[0].message is Pong,
            ClientMessage::RegisterHost(server) => {
                &&& sent.len() == 1
                &&& sent[0].to == client
                &&& sent[0].message matches ServerMessage::Registered { sender_id }
                &&& sender_id == server.sender_id
            },
            ClientMessage::UpdateHost(server) => sent.len() == 0,
            ClientMessage::UnregisterHost { sender_id } => sent.len() == 0,
            ClientMessage::ListHosts => sent.len() == 1 && sent[0].to == client
                && sent[0].message is HostList,
            ClientMessage::ConnectRequest { target_sender_id, joiner_network_id } => {
                if m.hosts.contains_key(target_sender_id) {
                    &&& sent.len() == 2
                    &&& sent[0].to == m.hosts[target_sender_id]
                    &&& sent[0].message matches ServerMessage::IncomingJoin {
                        joiner_network_id: joiner,
                        session_id,
                    }
                    &&& joiner == joiner_network_id
                    &&& session_id == m.next_session_id
                    &&& sent[1].to == client
                    &&& sent[1].message matches ServerMessage::JoinAccepted { session_id: accepted }
                    &&& accepted == m.next_session_id
                } else {
                    &&& sent.len() == 1
                    &&& sent[0].to == client
                    &&& sent[0].message matches ServerMessage::Error(words)
                    &&& words@ == "no such host: 0x"@ + hex(target_sender_id as nat)
                }
            },
            ClientMessage::Signal { target_sender_id, connection_id, joiner_network_id, data } => {
                let to_host = target_sender_id != 0 && m.hosts.contains_key(target_sender_id);
                let to_joiner = target_sender_id == 0 && m.sessions.contains_key(connection_id);
                if to_host || to_joiner {
                    &&& sent.len() == 1
                    &&& to_host ==> sent[0].to == m.hosts[target_sender_id]
                    &&& to_joiner ==> sent[0].to == m.sessions[connection_id].joiner
                    &&& sent[0].message matches ServerMessage::Signal {
                        connection_id: connection,
                        joiner_network_id: joiner,
                        data: line,
                    }
                    &&& connection == connection_id
                    &&& joiner == joiner_network_id
                    &&& line@ == data@
                } else {
                    sent.len() == 0
                }
            },
        },
{
}

/// The list that a client gets holds exactly the records, each once and as it is.
pub proof fn host_list_is_complete(
    list: Seq<AdvertisedServer>,
    records: Map<u64, AdvertisedModel>,
    id: u64,
    i: int,
    j: int,
)
    requires
        lists_records(list, records),
        records.dom().finite(),
    ensures
        list.len() == records.dom().len(),
        0 <= i < list.len() ==> records.contains_key(list[i].sender_id) && list[i]@
            == records[list[i].sender_id],
        0 <= i < j < list.len() ==> list[i].sender_id != list[j].sender_id,
        records.contains_key(id) ==> exists|k: int|
            0 <= k < list.len() && (#[trigger] list[k]).sender_id == id && list[k]@ == records[id],
{
    let ids = discovery::sender_ids(discovery::advertised_views(list));
    ids.unique_seq_to_set();
    assert(ids.len() == list.len());
    assert forall|k: int| 0 <= k < list.len() implies #[trigger] ids[k] == list[k].sender_id by {
        assert(discovery::advertised_views(list)[k] == list[k]@);
    }
    if 0 <= i < list.len() {
        assert(ids.to_set().contains(ids[i]));
        assert(list[i]@ == records[list[i].sender_id]);
    }
    if 0 <= i < j < list.len() {
        assert(ids[i] != ids[j]);
    }
    if records.contains_key(id) {
        assert(ids.to_set().contains(id));
        let k = choose|k: int| 0 <= k < ids.len() && ids[k] == id;
        assert(list[k].sender_id == id);
        assert(list[k]@ == records[id]);
    }
}

/// The hexadecimal digits of a number stand for it, and none is a leading zero but that of zero.
pub proof fn hexadecimal_reads_back(n: nat)
    ensures
        text::hex_value(hex(n)) == n,
        hex(n).len() > 0,
        n > 0 ==> hex(n)[0] != '0',
    decreases n,
{
    if n < 16 {
        let digits = hex(n);
        assert(digits.drop_last() =~= Seq::<char>::empty());
        reveal_with_fuel(text::hex_value, 2);
    } else {
        hexadecimal_reads_back(n / 16);
        assert(hex(n).drop_last() =~= hex(n / 16));
        assert(hex(n)[0] == hex(n / 16)[0]);
    }
}

/// Whatever is known stays of connected clients only: each host and each end of a session is
/// connected, each world has one record under its own id, and at most 4096 sessions are remembered.
pub proof fn all_that_is_known_is_of_clients(m: RendezvousModel, id: u64)
    requires
        consistent(m),
    ensures
        m.hosts.contains_key(id) <==> m.records.contains_key(id),
        m.records.contains_key(id) ==> m.records[id].sender_id == id,
        m.hosts.contains_key(id) ==> m.clients.contains_key(m.hosts[id]),
        m.sessions.contains_key(id) ==> m.clients.contains_key(m.sessions[id].joiner)
            && m.clients.contains_key(m.sessions[id].host),
        m.sessions.dom().len() <= 4096,
{
    assert(m.hosts.dom().contains(id) <==> m.records.dom().contains(id));
}

} // verus!
