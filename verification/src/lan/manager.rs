//! The remote worlds that the local game is shown.

use std::collections::{BTreeMap, HashMap};

use vstd::prelude::*;

use crate::addr;
use crate::addr::{IpAddr, SocketAddr};
use crate::lan::identifier;
use crate::lan::identifier::{BedrockIdentifier, IdentifierModel};
use crate::lan::packets;
use crate::lan::packets::{build_unconnected_pong, PacketError, PacketErrorModel};
use crate::maps;
use crate::maps::sorted_keys_of;
use crate::text;
use crate::text::push_decimal;

verus! {

broadcast use {
    vstd::std_specs::hash::group_hash_axioms,
    vstd::std_specs::btree::group_btree_axioms,
    vstd::laws_cmp::group_laws_cmp,
};

/// A friend's world, reachable through a local port.
#[derive(Debug)]
pub struct RemoteServer {
    pub target_client_id: u32,
    pub target_raknet_id: u64,
    pub relay_addr: SocketAddr,
    pub raw_identifier: String,
    pub parsed_identifier: BedrockIdentifier,
    pub ephemeral_port: u16,
    /// Tells this world from those that had its client id before or will have it.
    pub serial: u64,
    /// The local game client that last sent something to the ephemeral port.
    pub last_client_addr: Option<SocketAddr>,
    /// Whether the world was removed or replaced.
    pub shut_down: bool,
}

/// A [`RemoteServer`] as mathematical values.
pub struct RemoteModel {
    pub target_client_id: u32,
    pub target_raknet_id: u64,
    pub relay_addr: SocketAddr,
    pub raw_identifier: Seq<char>,
    pub parsed_identifier: IdentifierModel,
    pub ephemeral_port: u16,
    pub serial: u64,
    pub last_client_addr: Option<SocketAddr>,
    pub shut_down: bool,
}

impl View for RemoteServer {
    type V = RemoteModel;

    open spec fn view(&self) -> RemoteModel {
        RemoteModel {
            target_client_id: self.target_client_id,
            target_raknet_id: self.target_raknet_id,
            relay_addr: self.relay_addr,
            raw_identifier: self.raw_identifier@,
            parsed_identifier: self.parsed_identifier@,
            ephemeral_port: self.ephemeral_port,
            serial: self.serial,
            last_client_addr: self.last_client_addr,
            shut_down: self.shut_down,
        }
    }
}

impl Clone for RemoteServer {
    fn clone(&self) -> (r: Self)
        ensures
            r@ == self@,
    {
        RemoteServer {
            target_client_id: self.target_client_id,
            target_raknet_id: self.target_raknet_id,
            relay_addr: self.relay_addr,
            raw_identifier: self.raw_identifier.clone(),
            parsed_identifier: self.parsed_identifier.clone(),
            ephemeral_port: self.ephemeral_port,
            serial: self.serial,
            last_client_addr: self.last_client_addr,
            shut_down: self.shut_down,
        }
    }
}

/// The advertisement of a remote world as the local game is to see it: at the local port, under the
/// remote GUID, otherwise unchanged.
pub open spec fn localized(m: IdentifierModel, port: u16, guid: u64) -> IdentifierModel {
    IdentifierModel {
        port_ipv4: port as nat,
        port_ipv6: port as nat,
        server_guid: guid as nat,
        ..m
    }
}

/// The text that the pong of a remote world carries.
pub open spec fn pong_text(s: RemoteModel) -> Seq<char> {
    identifier::identifier_text(
        localized(s.parsed_identifier, s.ephemeral_port, s.target_raknet_id),
    )
}

/// The pong of a remote world, or why its text does not fit.
pub open spec fn synthetic_pong(s: RemoteModel, timestamp: u64) -> Result<
    Seq<u8>,
    PacketErrorModel,
> {
    let encoded = vstd::utf8::encode_utf8(pong_text(s));
    if encoded.len() <= u16::MAX {
        Ok(packets::pong_bytes(timestamp as nat, s.target_raknet_id as nat, encoded))
    } else {
        Err(PacketErrorModel::IdentifierTooLong(encoded.len()))
    }
}

impl RemoteServer {
    /// Builds the unconnected pong for this world, with the advertised ports replaced by the
    /// ephemeral port.
    pub fn build_synthetic_pong(&self, timestamp: u64) -> (r: Result<Vec<u8>, PacketError>)
        ensures
            match r {
                Ok(v) => synthetic_pong(self@, timestamp) == Ok::<Seq<u8>, PacketErrorModel>(v@),
                Err(e) => synthetic_pong(self@, timestamp) == Err::<Seq<u8>, PacketErrorModel>(e@),
            },
    {
        let rewritten = self.parsed_identifier.clone().with_ephemeral_port(
            self.ephemeral_port,
        ).with_guid(self.target_raknet_id);
        let text = rewritten.serialize_to_string();
        build_unconnected_pong(timestamp, self.target_raknet_id, text.as_str())
    }
}

/// What a world is called whose advertisement cannot be read.
pub open spec fn fallback_identifier(
    target_client_id: u32,
    target_raknet_id: u64,
    port: u16,
) -> IdentifierModel {
    IdentifierModel {
        edition: "MCPE"@,
        server_name: "Friend World ("@ + text::decimal(target_client_id as nat) + ")"@,
        protocol_version: 776,
        version_name: "1.21.60"@,
        player_count: 1,
        max_player_count: 8,
        server_guid: target_raknet_id as nat,
        sub_name: ""@,
        game_mode: "Survival"@,
        game_mode_numeric: 1,
        port_ipv4: port as nat,
        port_ipv6: port as nat,
        extra: Seq::empty(),
    }
}

fn fallback(target_client_id: u32, target_raknet_id: u64, port: u16) -> (r: BedrockIdentifier)
    ensures
        r@ == fallback_identifier(target_client_id, target_raknet_id, port),
{
    let mut server_name = "Friend World (".to_owned();
    push_decimal(&mut server_name, target_client_id as u64);
    server_name.append(")");
    let extra: Vec<String> = Vec::new();
    assert(text::views(extra@) =~= Seq::<Seq<char>>::empty());
    BedrockIdentifier {
        edition: "MCPE".to_owned(),
        server_name,
        protocol_version: 776,
        version_name: "1.21.60".to_owned(),
        player_count: 1,
        max_player_count: 8,
        server_guid: target_raknet_id,
        sub_name: "".to_owned(),
        game_mode: "Survival".to_owned(),
        game_mode_numeric: 1,
        port_ipv4: port,
        port_ipv6: port,
        extra,
    }
}

/// A world that was just added.
pub open spec fn new_server(
    target_client_id: u32,
    target_raknet_id: u64,
    relay_addr: SocketAddr,
    raw_identifier: Seq<char>,
    ephemeral_port: u16,
    serial: u64,
) -> RemoteModel {
    RemoteModel {
        target_client_id,
        target_raknet_id,
        relay_addr,
        raw_identifier,
        parsed_identifier: match identifier::identifier_of(raw_identifier) {
            Ok(m) => m,
            Err(_) => fallback_identifier(target_client_id, target_raknet_id, ephemeral_port),
        },
        ephemeral_port,
        serial,
        last_client_addr: None,
        shut_down: false,
    }
}

/// The serial number behind another.
pub open spec fn following(serial: u64) -> u64 {
    if serial == u64::MAX {
        0
    } else {
        (serial + 1) as u64
    }
}

/// The same world after its removal or replacement.
pub open spec fn shut(s: RemoteModel) -> RemoteModel {
    RemoteModel { shut_down: true, ..s }
}

/// The remote worlds by client id, and the client ids by local port.
pub struct ServerManager {
    servers: BTreeMap<u32, RemoteServer>,
    port_map: HashMap<u16, u32>,
    default_bind_ip: IpAddr,
    next_serial: u64,
}

/// A [`ServerManager`] as mathematical values.
pub struct ManagerModel {
    pub servers: Map<u32, RemoteModel>,
    pub ports: Map<u16, u32>,
    pub bind_ip: IpAddr,
    /// The serial number of the world that is added next.
    pub next_serial: u64,
}

impl View for ServerManager {
    type V = ManagerModel;

    closed spec fn view(&self) -> ManagerModel {
        ManagerModel {
            servers: self.servers@.map_values(|s: RemoteServer| s@),
            ports: self.port_map@,
            bind_ip: self.default_bind_ip,
            next_serial: self.next_serial,
        }
    }
}

/// The worlds after one was added: one that had the same client id is replaced.
pub open spec fn with_server(m: ManagerModel, s: RemoteModel) -> ManagerModel {
    ManagerModel {
        servers: m.servers.insert(s.target_client_id, s),
        ports: (if m.servers.contains_key(s.target_client_id) {
            m.ports.remove(m.servers[s.target_client_id].ephemeral_port)
        } else {
            m.ports
        }).insert(s.ephemeral_port, s.target_client_id),
        next_serial: following(m.next_serial),
        ..m
    }
}

/// The worlds after one was removed.
pub open spec fn without_server(m: ManagerModel, id: u32) -> ManagerModel {
    if m.servers.contains_key(id) {
        ManagerModel {
            servers: m.servers.remove(id),
            ports: m.ports.remove(m.servers[id].ephemeral_port),
            ..m
        }
    } else {
        m
    }
}

/// Whether each world stands under its client id and each known port is that of the world it
/// stands for.
pub open spec fn manager_consistent(m: ManagerModel) -> bool {
    &&& forall|id: u32| #[trigger]
        m.servers.contains_key(id) ==> m.servers[id].target_client_id == id
            && !m.servers[id].shut_down
    &&& forall|port: u16| #[trigger]
        m.ports.contains_key(port) ==> m.servers.contains_key(m.ports[port])
            && m.servers[m.ports[port]].ephemeral_port == port
}

/// Whether every world is known by its port.
pub open spec fn ports_complete(m: ManagerModel) -> bool {
    forall|id: u32| #[trigger]
        m.servers.contains_key(id) ==> m.ports.contains_key(m.servers[id].ephemeral_port)
            && m.ports[m.servers[id].ephemeral_port] == id
}

/// The worlds in the order of their client ids.
pub open spec fn lists_in_order(list: Seq<RemoteModel>, servers: Map<u32, RemoteModel>) -> bool {
    &&& list.len() == servers.dom().len()
    &&& forall|i: int, j: int|
        0 <= i < j < list.len() ==> (#[trigger] list[i]).target_client_id < (
        #[trigger] list[j]).target_client_id
    &&& forall|i: int|
        0 <= i < list.len() ==> servers.contains_key((#[trigger] list[i]).target_client_id)
            && servers[list[i].target_client_id] == list[i]
    &&& forall|id: u32| #[trigger]
        servers.contains_key(id) ==> exists|i: int|
            0 <= i < list.len() && (#[trigger] list[i]).target_client_id == id
}

/// All worlds, in the order of their client ids.
pub open spec fn in_order(servers: Map<u32, RemoteModel>) -> Seq<RemoteModel> {
    choose|list: Seq<RemoteModel>| lists_in_order(list, servers)
}

/// There is only one list of all worlds in order.
pub proof fn order_is_unique(
    a: Seq<RemoteModel>,
    b: Seq<RemoteModel>,
    servers: Map<u32, RemoteModel>,
)
    requires
        lists_in_order(a, servers),
        lists_in_order(b, servers),
    ensures
        a == b,
        a == in_order(servers),
{
    same_order_up_to(a, b, servers, a.len() as int);
    assert(a =~= b);
    let c = in_order(servers);
    same_order_up_to(a, c, servers, a.len() as int);
    assert(a =~= c);
}

proof fn same_order_up_to(
    a: Seq<RemoteModel>,
    b: Seq<RemoteModel>,
    servers: Map<u32, RemoteModel>,
    n: int,
)
    requires
        lists_in_order(a, servers),
        lists_in_order(b, servers),
        0 <= n <= a.len(),
    ensures
        forall|i: int| 0 <= i < n ==> a[i] == b[i],
    decreases n,
{
    if n > 0 {
        let last = n - 1;
        same_order_up_to(a, b, servers, last);
        assert(servers.contains_key(a[last].target_client_id));
        assert(servers.contains_key(b[last].target_client_id));
        let j = choose|j: int|
            0 <= j < b.len() && (#[trigger] b[j]).target_client_id == a[last].target_client_id;
        let k = choose|k: int|
            0 <= k < a.len() && (#[trigger] a[k]).target_client_id == b[last].target_client_id;
        if j < last {
            assert(a[j] == b[j]);
            assert(a[j].target_client_id < a[last].target_client_id);
        }
        if k < last {
            assert(a[k] == b[k]);
            assert(b[k].target_client_id < b[last].target_client_id);
        }
    }
}

/// The views of some worlds.
pub open spec fn remote_views(v: Seq<RemoteServer>) -> Seq<RemoteModel> {
    v.map_values(|s: RemoteServer| s@)
}

impl Default for ServerManager {
    fn default() -> (r: Self)
        ensures
            r.wf(),
            r@.servers == Map::<u32, RemoteModel>::empty(),
            r@.ports == Map::<u16, u32>::empty(),
            addr::is_loopback(r@.bind_ip),
    {
        ServerManager::new()
    }
}

impl ServerManager {
    pub open spec fn wf(&self) -> bool {
        &&& manager_consistent(self@)
        &&& self@.servers.dom().finite()
    }

    /// No worlds; sockets are bound to the loopback address.
    pub fn new() -> (r: Self)
        ensures
            r.wf(),
            r@.servers == Map::<u32, RemoteModel>::empty(),
            r@.ports == Map::<u16, u32>::empty(),
            addr::is_loopback(r@.bind_ip),
    {
        let r = ServerManager {
            servers: BTreeMap::new(),
            port_map: HashMap::new(),
            default_bind_ip: IpAddr::v4(127, 0, 0, 1),
            next_serial: 0,
        };
        assert(r@.servers =~= Map::<u32, RemoteModel>::empty());
        r
    }

    pub fn set_bind_ip(&mut self, ip: IpAddr)
        requires
            old(self).wf(),
        ensures
            final(self).wf(),
            final(self)@ == (ManagerModel { bind_ip: ip, ..old(self)@ }),
    {
        self.default_bind_ip = ip;
    }

    pub fn get_bind_ip(&self) -> (r: IpAddr)
        ensures
            r == self@.bind_ip,
    {
        self.default_bind_ip
    }

    /// Where the socket of a new world is bound: at any free port.
    pub fn ephemeral_bind_addr(&self) -> (r: SocketAddr)
        ensures
            r == addr::endpoint(self@.bind_ip, 0),
    {
        SocketAddr::new(self.default_bind_ip, 0)
    }

    /// Adds a friend's world behind the given local port, and hands back the one that it replaces.
    pub fn add_server(
        &mut self,
        target_client_id: u32,
        target_raknet_id: u64,
        relay_addr: SocketAddr,
        identifier: &str,
        ephemeral_port: u16,
    ) -> (r: Option<RemoteServer>)
        requires
            old(self).wf(),
        ensures
            final(self).wf(),
            final(self)@ == with_server(
                old(self)@,
                new_server(
                    target_client_id,
                    target_raknet_id,
                    relay_addr,
                    identifier@,
                    ephemeral_port,
                    old(self)@.next_serial,
                ),
            ),
            match r {
                Some(replaced) => old(self)@.servers.contains_key(target_client_id) && replaced@
                    == shut(old(self)@.servers[target_client_id]),
                None => !old(self)@.servers.contains_key(target_client_id),
            },
    {
        let parsed_identifier = match BedrockIdentifier::parse(identifier) {
            Ok(parsed) => parsed,
            Err(_) => fallback(target_client_id, target_raknet_id, ephemeral_port),
        };
        let server = RemoteServer {
            target_client_id,
            target_raknet_id,
            relay_addr,
            raw_identifier: identifier.to_owned(),
            parsed_identifier,
            ephemeral_port,
            serial: self.next_serial,
            last_client_addr: None,
            shut_down: false,
        };
        self.next_serial = if self.next_serial == u64::MAX {
            0
        } else {
            self.next_serial + 1
        };
        let ghost model = server@;
        let replaced = self.servers.insert(target_client_id, server);
        let handed_back = match replaced {
            Some(old_server) => {
                self.port_map.remove(&old_server.ephemeral_port);
                Some(RemoteServer { shut_down: true, ..old_server })
            },
            None => None,
        };
        self.port_map.insert(ephemeral_port, target_client_id);
        assert(self@.servers =~= old(self)@.servers.insert(target_client_id, model));
        assert(self@.servers.dom() =~= self.servers@.dom());
        handed_back
    }

    /// Removes a world and hands it back.
    pub fn remove_server(&mut self, target_client_id: u32) -> (r: Option<RemoteServer>)
        requires
            old(self).wf(),
        ensures
            final(self).wf(),
            final(self)@ == without_server(old(self)@, target_client_id),
            match r {
                Some(removed) => old(self)@.servers.contains_key(target_client_id) && removed@
                    == shut(old(self)@.servers[target_client_id]),
                None => !old(self)@.servers.contains_key(target_client_id),
            },
    {
        let removed = match self.servers.remove(&target_client_id) {
            Some(server) => {
                self.port_map.remove(&server.ephemeral_port);
                Some(RemoteServer { shut_down: true, ..server })
            },
            None => None,
        };
        assert(self@.servers =~= old(self)@.servers.remove(target_client_id));
        assert(self@.servers.dom() =~= self.servers@.dom());
        assert(removed is None ==> self@.servers =~= old(self)@.servers);
        removed
    }

    /// Remembers which local game client talks to a world, unless the world has gone or was replaced
    /// since.
    pub fn note_client(&mut self, target_client_id: u32, serial: u64, client: SocketAddr)
        requires
            old(self).wf(),
        ensures
            final(self).wf(),
            final(self)@ == (if old(self)@.servers.contains_key(target_client_id)
                && old(self)@.servers[target_client_id].serial == serial {
                ManagerModel {
                    servers: old(self)@.servers.insert(
                        target_client_id,
                        RemoteModel {
                            last_client_addr: Some(client),
                            ..old(self)@.servers[target_client_id]
                        },
                    ),
                    ..old(self)@
                }
            } else {
                old(self)@
            }),
    {
        let current = match self.servers.get(&target_client_id) {
            Some(server) => server.serial == serial,
            None => false,
        };
        if current {
            if let Some(server) = self.servers.remove(&target_client_id) {
                self.servers.insert(
                    target_client_id,
                    RemoteServer { last_client_addr: Some(client), ..server },
                );
            }
            assert(self@.servers =~= old(self)@.servers.insert(
                target_client_id,
                RemoteModel {
                    last_client_addr: Some(client),
                    ..old(self)@.servers[target_client_id]
                },
            ));
            assert(self@.servers.dom() =~= self.servers@.dom());
        }
    }

    /// The world of a client id.
    pub fn get_server(&self, target_client_id: u32) -> (r: Option<RemoteServer>)
        ensures
            match r {
                Some(s) => self@.servers.contains_key(target_client_id) && s@
                    == self@.servers[target_client_id],
                None => !self@.servers.contains_key(target_client_id),
            },
    {
        match self.servers.get(&target_client_id) {
            Some(s) => Some(s.clone()),
            None => None,
        }
    }

    /// The world behind a local port.
    pub fn get_by_port(&self, port: u16) -> (r: Option<RemoteServer>)
        requires
            self.wf(),
        ensures
            match r {
                Some(s) => self@.ports.contains_key(port) && s@
                    == self@.servers[self@.ports[port]] && s.ephemeral_port == port,
                None => !self@.ports.contains_key(port),
            },
    {
        match self.port_map.get(&port) {
            Some(id) => {
                assert(self@.servers.contains_key(*id));
                self.get_server(*id)
            },
            None => None,
        }
    }

    /// All worlds, in the order of their client ids.
    pub fn all_servers(&self) -> (r: Vec<RemoteServer>)
        requires
            self.wf(),
        ensures
            lists_in_order(remote_views(r@), self@.servers),
            remote_views(r@) == in_order(self@.servers),
    {
        let ids = sorted_keys_of(&self.servers);
        assert(self@.servers.dom() =~= self.servers@.dom());
        let mut out: Vec<RemoteServer> = Vec::new();
        for i in 0..ids.len()
            invariant
                self.wf(),
                maps::lists(ids@, self@.servers.dom()),
                out@.len() == i,
                forall|k: int|
                    0 <= k < i ==> (#[trigger] out@[k])@ == self@.servers[ids@[k]],
        {
            assert(ids@.to_set().contains(ids@[i as int]));
            if let Some(s) = self.get_server(ids[i]) {
                out.push(s);
            }
        }
        proof {
            let list = remote_views(out@);
            assert forall|i: int| 0 <= i < list.len() implies #[trigger] list[i]
                == self@.servers[ids@[i]] && self@.servers.contains_key(ids@[i])
                && list[i].target_client_id == ids@[i] by {
                assert(ids@.to_set().contains(ids@[i]));
                assert(list[i] == out@[i]@);
            }
            assert forall|id: u32| #[trigger] self@.servers.contains_key(id) implies exists|i: int|
                0 <= i < list.len() && (#[trigger] list[i]).target_client_id == id by {
                assert(ids@.to_set().contains(id));
                let i = choose|i: int| 0 <= i < ids@.len() && ids@[i] == id;
                assert(list[i].target_client_id == id);
            }
            order_is_unique(list, list, self@.servers);
        }
        out
    }

    pub fn count(&self) -> (r: usize)
        ensures
            r == self@.servers.dom().len(),
    {
        assert(self@.servers.dom() =~= self.servers@.dom());
        self.servers.len()
    }
}

/// A world that was added is found by its client id and by its port.
pub proof fn added_server_is_found(m: ManagerModel, s: RemoteModel)
    ensures
        with_server(m, s).servers.contains_key(s.target_client_id),
        with_server(m, s).servers[s.target_client_id] == s,
        with_server(m, s).ports.contains_key(s.ephemeral_port),
        with_server(m, s).ports[s.ephemeral_port] == s.target_client_id,
{
}

/// Adding a world behind a port that no other world has: it is found by its client id and by that
/// port, and by no port it had before; every other world stays where it was, found by the port it
/// has; and there is one world more, unless one was replaced. It stays so that each world has a port
/// of its own, not zero if none was.
pub proof fn adding_gives_a_port_of_its_own(m: ManagerModel, s: RemoteModel, other: u32)
    requires
        manager_consistent(m),
        ports_complete(m),
        m.servers.dom().finite(),
        forall|id: u32| #[trigger]
            m.servers.contains_key(id) ==> m.servers[id].ephemeral_port != s.ephemeral_port
                && m.servers[id].ephemeral_port != 0,
        s.ephemeral_port != 0,
        !s.shut_down,
    ensures
        ({
            let after = with_server(m, s);
            let id = s.target_client_id;
            &&& after.servers[id] == s
            &&& after.ports[s.ephemeral_port] == id
            &&& m.servers.contains_key(id) ==> {
                &&& !after.ports.contains_key(m.servers[id].ephemeral_port)
                &&& after.servers.dom().len() == m.servers.dom().len()
            }
            &&& !m.servers.contains_key(id) ==> after.servers.dom().len() == m.servers.dom().len()
                + 1
            &&& m.servers.contains_key(other) && other != id ==> {
                &&& after.servers[other] == m.servers[other]
                &&& after.ports.contains_key(m.servers[other].ephemeral_port)
                &&& after.ports[m.servers[other].ephemeral_port] == other
                &&& m.servers[other].ephemeral_port != s.ephemeral_port
            }
            &&& manager_consistent(after)
            &&& ports_complete(after)
            &&& forall|k: u32| #[trigger]
                after.servers.contains_key(k) ==> after.servers[k].ephemeral_port != 0
        }),
{
    let after = with_server(m, s);
    assert(after.servers.dom() =~= m.servers.dom().insert(s.target_client_id));
}

/// A world that was removed is found no more, by neither its client id nor its port.
pub proof fn removed_server_is_gone(m: ManagerModel, id: u32)
    requires
        manager_consistent(m),
        m.servers.contains_key(id),
    ensures
        !without_server(m, id).servers.contains_key(id),
        !without_server(m, id).ports.contains_key(m.servers[id].ephemeral_port),
{
}

/// While each world has a port of its own, every one of them is found by its port.
pub proof fn distinct_ports_stay_complete(m: ManagerModel, s: RemoteModel, id: u32)
    requires
        manager_consistent(m),
        ports_complete(m),
    ensures
        (forall|other: u32| #[trigger]
            m.servers.contains_key(other) && other != s.target_client_id
                ==> m.servers[other].ephemeral_port != s.ephemeral_port) ==> ports_complete(
            with_server(m, s),
        ),
        ports_complete(without_server(m, id)),
{
}

/// Removing a world right after adding it leaves things as they were, if it replaced nothing.
pub proof fn remove_undoes_add(m: ManagerModel, s: RemoteModel)
    requires
        !m.servers.contains_key(s.target_client_id),
        !m.ports.contains_key(s.ephemeral_port),
    ensures
        without_server(with_server(m, s), s.target_client_id) == (ManagerModel {
            next_serial: following(m.next_serial),
            ..m
        }),
{
    let after = without_server(with_server(m, s), s.target_client_id);
    assert(after.servers =~= m.servers);
    assert(after.ports =~= m.ports);
}

/// Whether every serial number that is in use was given out before the next one.
pub open spec fn serials_fresh(m: ManagerModel) -> bool {
    forall|id: u32| #[trigger] m.servers.contains_key(id) ==> m.servers[id].serial < m.next_serial
}

/// As long as the numbers last, a world that is added has a serial number that no other has or had:
/// it is greater than all that were given out.
pub proof fn serials_stay_fresh(m: ManagerModel, s: RemoteModel, id: u32)
    requires
        serials_fresh(m),
        s.serial == m.next_serial,
        m.next_serial < u64::MAX,
    ensures
        serials_fresh(with_server(m, s)),
        serials_fresh(without_server(m, id)),
        m.servers.contains_key(id) ==> m.servers[id].serial != s.serial,
        with_server(m, s).next_serial > m.next_serial,
        without_server(m, id).next_serial == m.next_serial,
{
}

/// Adding or removing a world leaves all others as they are.
pub proof fn other_servers_are_untouched(m: ManagerModel, s: RemoteModel, id: u32, other: u32)
    ensures
        other != s.target_client_id ==> with_server(m, s).servers.contains_key(other)
            == m.servers.contains_key(other) && with_server(m, s).servers[other]
            == m.servers[other],
        other != id ==> without_server(m, id).servers.contains_key(other)
            == m.servers.contains_key(other) && without_server(m, id).servers[other]
            == m.servers[other],
{
}

proof fn no_semicolon_around_decimal(before: Seq<char>, n: nat, after: Seq<char>)
    requires
        !before.contains(';'),
        !after.contains(';'),
    ensures
        !(before + text::decimal(n) + after).contains(';'),
{
    let whole = before + text::decimal(n) + after;
    let digits = text::decimal(n);
    text::decimal_reads_back(n);
    if whole.contains(';') {
        let k = choose|k: int| 0 <= k < whole.len() && whole[k] == ';';
        if k < before.len() {
            assert(before[k] == ';');
        } else if k < before.len() + digits.len() {
            assert(digits[k - before.len()] == ';');
            assert(text::is_digit(digits[k - before.len()]));
        } else {
            assert(after[k - before.len() - digits.len()] == ';');
        }
    }
}

/// What the local game reads from the pong of a newly added world: the world's own advertisement,
/// with both ports replaced by the ephemeral port and the GUID by the world's.
pub proof fn synthetic_pong_shows_the_world(
    target_client_id: u32,
    target_raknet_id: u64,
    relay_addr: SocketAddr,
    raw_identifier: Seq<char>,
    ephemeral_port: u16,
    serial: u64,
    timestamp: u64,
)
    ensures
        ({
            let s = new_server(
                target_client_id,
                target_raknet_id,
                relay_addr,
                raw_identifier,
                ephemeral_port,
                serial,
            );
            synthetic_pong(s, timestamp) matches Ok(bytes) ==> {
                &&& packets::pong_of(bytes) == Ok::<(nat, nat, Seq<char>), PacketErrorModel>(
                    (timestamp as nat, target_raknet_id as nat, pong_text(s)),
                )
                &&& identifier::identifier_of(pong_text(s)) == Ok::<
                    IdentifierModel,
                    identifier::IdentifierErrorModel,
                >(localized(s.parsed_identifier, ephemeral_port, target_raknet_id))
            }
        }),
{
    let s = new_server(
        target_client_id,
        target_raknet_id,
        relay_addr,
        raw_identifier,
        ephemeral_port,
        serial,
    );
    let shown = localized(s.parsed_identifier, ephemeral_port, target_raknet_id);
    let texts = identifier::identifier_texts(shown);
    identifier::parsed_is_well_formed(raw_identifier);
    if identifier::identifier_of(raw_identifier) is Err {
        reveal_strlit("MCPE");
        reveal_strlit("1.21.60");
        reveal_strlit("");
        reveal_strlit("Survival");
        reveal_strlit("Friend World (");
        reveal_strlit(")");
        no_semicolon_around_decimal("Friend World ("@, target_client_id as nat, ")"@);
        assert forall|i: int| 0 <= i < texts.len() implies !(#[trigger] texts[i]).contains(
            ';',
        ) by {}
    } else {
        assert(texts == identifier::identifier_texts(s.parsed_identifier));
    }
    identifier::parse_inverts_serialize(shown);
    if vstd::utf8::encode_utf8(pong_text(s)).len() <= u16::MAX {
        packets::parse_inverts_build_pong(
            timestamp,
            target_raknet_id,
            pong_text(s),
            Seq::<u8>::empty(),
        );
        let bytes = packets::pong_bytes(
            timestamp as nat,
            target_raknet_id as nat,
            vstd::utf8::encode_utf8(pong_text(s)),
        );
        assert(bytes + Seq::<u8>::empty() == bytes);
    }
}

/// The pong of any world: it carries the time that was asked with, the world's GUID, and the world's
/// advertisement with nothing replaced but both ports, by the local port, and the GUID. It is refused
/// exactly where that text is longer than a pong can say.
pub proof fn pong_carries_the_advertisement(s: RemoteModel, timestamp: u64)
    ensures
        ({
            let shown = IdentifierModel {
                edition: s.parsed_identifier.edition,
                server_name: s.parsed_identifier.server_name,
                protocol_version: s.parsed_identifier.protocol_version,
                version_name: s.parsed_identifier.version_name,
                player_count: s.parsed_identifier.player_count,
                max_player_count: s.parsed_identifier.max_player_count,
                server_guid: s.target_raknet_id as nat,
                sub_name: s.parsed_identifier.sub_name,
                game_mode: s.parsed_identifier.game_mode,
                game_mode_numeric: s.parsed_identifier.game_mode_numeric,
                port_ipv4: s.ephemeral_port as nat,
                port_ipv6: s.ephemeral_port as nat,
                extra: s.parsed_identifier.extra,
            };
            let said = vstd::utf8::encode_utf8(identifier::identifier_text(shown));
            if said.len() <= 0xffff {
                synthetic_pong(s, timestamp) == Ok::<Seq<u8>, PacketErrorModel>(
                    packets::pong_bytes(timestamp as nat, s.target_raknet_id as nat, said),
                )
            } else {
                synthetic_pong(s, timestamp) == Err::<Seq<u8>, PacketErrorModel>(
                    PacketErrorModel::IdentifierTooLong(said.len()),
                )
            }
        }),
{
}

/// What the local game reads from the pong of a newly added world is, field by field, what the world
/// said of itself, but for the two ports, which are the local port, and the GUID, which is the one
/// that was given. So no player count, version or name is made up for a world that can be read.
pub proof fn game_is_shown_what_the_world_said(
    target_client_id: u32,
    target_raknet_id: u64,
    relay_addr: SocketAddr,
    raw_identifier: Seq<char>,
    ephemeral_port: u16,
    serial: u64,
    timestamp: u64,
)
    requires
        identifier::identifier_of(raw_identifier) is Ok,
    ensures
        ({
            let said = identifier::identifier_of(raw_identifier)->Ok_0;
            let s = new_server(
                target_client_id,
                target_raknet_id,
                relay_addr,
                raw_identifier,
                ephemeral_port,
                serial,
            );
            synthetic_pong(s, timestamp) matches Ok(bytes) ==> {
                &&& packets::pong_of(bytes) matches Ok(pong)
                &&& pong.0 == timestamp
                &&& pong.1 == target_raknet_id
                &&& identifier::identifier_of(pong.2) matches Ok(shown)
                &&& shown.edition == said.edition
                &&& shown.server_name == said.server_name
                &&& shown.protocol_version == said.protocol_version
                &&& shown.version_name == said.version_name
                &&& shown.player_count == said.player_count
                &&& shown.max_player_count == said.max_player_count
                &&& shown.server_guid == target_raknet_id
                &&& shown.sub_name == said.sub_name
                &&& shown.game_mode == said.game_mode
                &&& shown.game_mode_numeric == said.game_mode_numeric
                &&& shown.port_ipv4 == ephemeral_port
                &&& shown.port_ipv6 == ephemeral_port
                &&& shown.extra == said.extra
            }
        }),
{
    synthetic_pong_shows_the_world(
        target_client_id,
        target_raknet_id,
        relay_addr,
        raw_identifier,
        ephemeral_port,
        serial,
        timestamp,
    );
}

/// A newly added world is what it was added as, and no client has talked to it. Its advertisement is
/// the one that was given; where that cannot be read, the world is called after its client id and
/// shown with one of eight players.
pub proof fn new_world_is_as_added(
    target_client_id: u32,
    target_raknet_id: u64,
    relay_addr: SocketAddr,
    raw_identifier: Seq<char>,
    ephemeral_port: u16,
    serial: u64,
)
    ensures
        ({
            let s = new_server(
                target_client_id,
                target_raknet_id,
                relay_addr,
                raw_identifier,
                ephemeral_port,
                serial,
            );
            let p = s.parsed_identifier;
            &&& s.target_client_id == target_client_id
            &&& s.target_raknet_id == target_raknet_id
            &&& s.relay_addr == relay_addr
            &&& s.raw_identifier == raw_identifier
            &&& s.ephemeral_port == ephemeral_port
            &&& s.serial == serial
            &&& s.last_client_addr is None
            &&& !s.shut_down
            &&& match identifier::identifier_of(raw_identifier) {
                Ok(said) => p == said,
                Err(_) => {
                    &&& p.edition == "MCPE"@
                    &&& p.server_name == "Friend World ("@ + text::decimal(
                        target_client_id as nat,
                    ) + ")"@
                    &&& p.protocol_version == 776
                    &&& p.version_name == "1.21.60"@
                    &&& p.player_count == 1
                    &&& p.max_player_count == 8
                    &&& p.server_guid == target_raknet_id
                    &&& p.sub_name.len() == 0
                    &&& p.game_mode == "Survival"@
                    &&& p.game_mode_numeric == 1
                    &&& p.port_ipv4 == ephemeral_port
                    &&& p.port_ipv6 == ephemeral_port
                    &&& p.extra.len() == 0
                },
            }
        }),
{
    reveal_strlit("");
}

/// What adding a world does to every port and every client id, and to nothing else: the new world's
/// port leads to it, the port of a world that it replaces leads nowhere unless it is the same, and
/// all other ports and worlds are as they were. The next world gets another serial number.
pub proof fn adding_moves_only_its_own(m: ManagerModel, s: RemoteModel, port: u16, id: u32)
    ensures
        ({
            let after = with_server(m, s);
            let freed = m.servers.contains_key(s.target_client_id)
                && m.servers[s.target_client_id].ephemeral_port == port;
            &&& after.servers.contains_key(id) <==> id == s.target_client_id
                || m.servers.contains_key(id)
            &&& after.servers.contains_key(id) ==> after.servers[id] == if id
                == s.target_client_id {
                s
            } else {
                m.servers[id]
            }
            &&& after.ports.contains_key(port) <==> port == s.ephemeral_port || (
            m.ports.contains_key(port) && !freed)
            &&& after.ports.contains_key(port) ==> after.ports[port] == if port
                == s.ephemeral_port {
                s.target_client_id
            } else {
                m.ports[port]
            }
            &&& after.bind_ip == m.bind_ip
            &&& m.next_serial < u64::MAX ==> after.next_serial == m.next_serial + 1
            &&& after.next_serial != m.next_serial
        }),
{
}

/// What removing a world does: the world is gone, and its port leads nowhere; all other worlds and
/// ports are as they were. Removing one that is not there does nothing.
pub proof fn removing_takes_only_its_own(m: ManagerModel, removed: u32, port: u16, id: u32)
    ensures
        ({
            let after = without_server(m, removed);
            let freed = m.servers.contains_key(removed) && m.servers[removed].ephemeral_port
                == port;
            &&& after.servers.contains_key(id) <==> m.servers.contains_key(id) && id != removed
            &&& after.servers.contains_key(id) ==> after.servers[id] == m.servers[id]
            &&& after.ports.contains_key(port) <==> m.ports.contains_key(port) && !freed
            &&& after.ports.contains_key(port) ==> after.ports[port] == m.ports[port]
            &&& after.bind_ip == m.bind_ip
            &&& after.next_serial == m.next_serial
            &&& !m.servers.contains_key(removed) ==> after == m
        }),
{
}

/// A world that is handed back is marked as gone and otherwise as it was.
pub proof fn handed_back_world_is_only_marked(s: RemoteModel)
    ensures
        shut(s).shut_down,
        shut(s).target_client_id == s.target_client_id,
        shut(s).target_raknet_id == s.target_raknet_id,
        shut(s).relay_addr == s.relay_addr,
        shut(s).raw_identifier == s.raw_identifier,
        shut(s).parsed_identifier == s.parsed_identifier,
        shut(s).ephemeral_port == s.ephemeral_port,
        shut(s).serial == s.serial,
        shut(s).last_client_addr == s.last_client_addr,
{
}

/// A list of all worlds holds every world as it is and nothing else, with ascending client ids, so
/// each once.
pub proof fn list_shows_every_world(
    list: Seq<RemoteModel>,
    servers: Map<u32, RemoteModel>,
    id: u32,
    s: RemoteModel,
    i: int,
    j: int,
)
    requires
        lists_in_order(list, servers),
        forall|k: u32| #[trigger] servers.contains_key(k) ==> servers[k].target_client_id == k,
    ensures
        list.contains(s) <==> servers.contains_key(s.target_client_id)
            && servers[s.target_client_id] == s,
        servers.contains_key(id) ==> list.contains(servers[id]),
        0 <= i < j < list.len() ==> list[i].target_client_id < list[j].target_client_id,
        list.len() == servers.dom().len(),
{
    if servers.contains_key(s.target_client_id) && servers[s.target_client_id] == s {
        let k = choose|k: int|
            0 <= k < list.len() && (#[trigger] list[k]).target_client_id == s.target_client_id;
        assert(list[k] == s);
    }
    if servers.contains_key(id) {
        let k = choose|k: int| 0 <= k < list.len() && (#[trigger] list[k]).target_client_id == id;
        assert(list[k] == servers[id]);
    }
    if list.contains(s) {
        let k = choose|k: int| 0 <= k < list.len() && list[k] == s;
        assert(servers.contains_key(list[k].target_client_id));
    }
}

/// In a consistent state each world is found under its own client id, is not marked as gone, and a
/// port leads to the world that has it.
pub proof fn consistent_worlds_are_found(m: ManagerModel, id: u32, port: u16)
    requires
        manager_consistent(m),
    ensures
        m.servers.contains_key(id) ==> m.servers[id].target_client_id == id
            && !m.servers[id].shut_down,
        m.ports.contains_key(port) ==> m.servers.contains_key(m.ports[port])
            && m.servers[m.ports[port]].ephemeral_port == port,
{
}

/// A world is known by all that is kept of it, and a list of worlds by each in its place.
pub proof fn worlds_are_seen_as_they_are(v: Seq<RemoteServer>, i: int)
    requires
        0 <= i < v.len(),
    ensures
        remote_views(v).len() == v.len(),
        ({
            let s = v[i];
            let m = remote_views(v)[i];
            &&& m == s@
            &&& m.target_client_id == s.target_client_id
            &&& m.target_raknet_id == s.target_raknet_id
            &&& m.relay_addr == s.relay_addr
            &&& m.raw_identifier == s.raw_identifier@
            &&& m.parsed_identifier == s.parsed_identifier@
            &&& m.ephemeral_port == s.ephemeral_port
            &&& m.serial == s.serial
            &&& m.last_client_addr == s.last_client_addr
            &&& m.shut_down == s.shut_down
        }),
{
}

} // verus!
