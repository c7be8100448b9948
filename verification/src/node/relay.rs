//! Which node hosts which advertised server.

use std::collections::HashMap;

use vstd::prelude::*;

use crate::maps;
use crate::maps::keys_of;
use crate::node::config::RelayConfig;
use crate::node::discovery;
use crate::node::discovery::{AdvertisedModel, AdvertisedServer};
use crate::node::error::CoreError;
use crate::node::session::Addr;

verus! {

broadcast use vstd::std_specs::hash::group_hash_axioms;

/// What the relay is asked by the signaling and transport layers.
#[derive(Debug)]
pub enum RelayCommand {
    /// A local node publishes an advertised server.
    RegisterHost(AdvertisedServer),
    /// A remote joiner asks for the currently advertised hosts.
    ListHosts,
    /// A joiner selected a server and wants a bridged session.
    BridgeToHost {
        /// Sender or network id of the advertised server.
        advertised_sender_id: u64,
        /// Address of the joiner's local negotiation endpoint.
        joiner_addr: Addr,
    },
}

/// Whether `after` are the hosts once a server was registered with at most `max` hosts kept: a new
/// host beyond that drives out one of those that were there.
pub open spec fn registers(
    before: Map<u64, AdvertisedModel>,
    after: Map<u64, AdvertisedModel>,
    server: AdvertisedModel,
    max: nat,
) -> bool {
    if before.dom().len() < max || before.contains_key(server.sender_id) || before.dom().len()
        == 0 {
        after == before.insert(server.sender_id, server)
    } else {
        exists|evicted: u64| #[trigger]
            before.contains_key(evicted) && after == before.remove(evicted).insert(
                server.sender_id,
                server,
            )
    }
}

/// The hosts once a server was registered with at most `max` hosts kept, where `first` is the host
/// that makes room.
pub open spec fn evicting(
    before: Map<u64, AdvertisedModel>,
    server: AdvertisedModel,
    first: Option<u64>,
    max: nat,
) -> Map<u64, AdvertisedModel> {
    if before.dom().len() >= max && !before.contains_key(server.sender_id) && first is Some {
        before.remove(first->0).insert(server.sender_id, server)
    } else {
        before.insert(server.sender_id, server)
    }
}

/// Whether `after` are the hosts once the commands were handled, in order.
pub open spec fn handles(
    before: Map<u64, AdvertisedModel>,
    after: Map<u64, AdvertisedModel>,
    commands: Seq<RelayCommand>,
    max: nat,
) -> bool
    decreases commands.len(),
{
    if commands.len() == 0 {
        after == before
    } else {
        exists|between: Map<u64, AdvertisedModel>|
            {
                &&& handles(before, between, commands.drop_last(), max)
                &&& #[trigger] handles_one(between, after, commands.last(), max)
            }
    }
}

/// Whether `after` are the hosts once one command was handled: only a registration changes them.
pub open spec fn handles_one(
    before: Map<u64, AdvertisedModel>,
    after: Map<u64, AdvertisedModel>,
    command: RelayCommand,
    max: nat,
) -> bool {
    match command {
        RelayCommand::RegisterHost(server) => registers(before, after, server@, max),
        RelayCommand::ListHosts => after == before,
        RelayCommand::BridgeToHost { advertised_sender_id, joiner_addr } => after == before,
    }
}

/// The most hosts that a registry ever holds: the cap, or one where the cap is zero.
pub open spec fn capacity(max: nat) -> nat {
    if max == 0 {
        1
    } else {
        max
    }
}

/// A [`RelayService`] as mathematical values.
pub struct RelayServiceModel {
    pub hosts: Map<u64, AdvertisedModel>,
    /// The commands that wait to be handled.
    pub pending: Seq<RelayCommand>,
}

/// The registry of hosts and the commands that wait for it.
pub struct RelayService {
    config: RelayConfig,
    hosts: HashMap<u64, AdvertisedServer>,
    pending: Vec<RelayCommand>,
}

impl View for RelayService {
    type V = RelayServiceModel;

    closed spec fn view(&self) -> RelayServiceModel {
        RelayServiceModel {
            hosts: self.hosts@.map_values(|s: AdvertisedServer| s@),
            pending: self.pending@,
        }
    }
}

impl RelayService {
    /// The cap on the number of hosts.
    pub closed spec fn max_hosts(&self) -> nat {
        self.config.max_advertised_hosts as nat
    }

    /// Whether each host stands under its own id and there are not too many.
    pub open spec fn wf(&self) -> bool {
        &&& self@.hosts.dom().finite()
        &&& self@.hosts.dom().len() <= capacity(self.max_hosts())
        &&& forall|id: u64| #[trigger]
            self@.hosts.contains_key(id) ==> self@.hosts[id].sender_id == id
    }

    /// A registry without hosts.
    pub fn new(config: RelayConfig) -> (r: Self)
        ensures
            r.wf(),
            r.max_hosts() == config.max_advertised_hosts,
            r@.hosts == Map::<u64, AdvertisedModel>::empty(),
            r@.pending == Seq::<RelayCommand>::empty(),
    {
        let r = RelayService { config, hosts: HashMap::new(), pending: Vec::new() };
        assert(r@.hosts =~= Map::<u64, AdvertisedModel>::empty());
        r
    }

    /// Leaves a command to be handled. The registry takes commands as long as it exists.
    pub fn submit(&mut self, command: RelayCommand) -> (r: Result<(), CoreError>)
        requires
            old(self).wf(),
        ensures
            final(self).wf(),
            final(self).max_hosts() == old(self).max_hosts(),
            final(self)@ == (RelayServiceModel {
                pending: old(self)@.pending.push(command),
                ..old(self)@
            }),
            r is Ok,
    {
        self.pending.push(command);
        Ok(())
    }

    /// Handles the commands that wait, and tells how many there were.
    pub fn pump_commands(&mut self) -> (r: usize)
        requires
            old(self).wf(),
        ensures
            final(self).wf(),
            final(self).max_hosts() == old(self).max_hosts(),
            final(self)@.pending == Seq::<RelayCommand>::empty(),
            handles(
                old(self)@.hosts,
                final(self)@.hosts,
                old(self)@.pending,
                old(self).max_hosts(),
            ),
            r == old(self)@.pending.len(),
    {
        let ghost before = self@.hosts;
        let ghost commands = self@.pending;
        let mut waiting: Vec<RelayCommand> = Vec::new();
        waiting.append(&mut self.pending);
        assert(waiting@ =~= commands);
        for i in 0..waiting.len()
            invariant
                self.wf(),
                self.max_hosts() == old(self).max_hosts(),
                self@.pending == Seq::<RelayCommand>::empty(),
                waiting@ == commands,
                handles(before, self@.hosts, commands.take(i as int), self.max_hosts()),
        {
            let ghost between = self@.hosts;
            match &waiting[i] {
                RelayCommand::RegisterHost(server) => {
                    self.register_host(server.clone());
                },
                RelayCommand::ListHosts => {},
                RelayCommand::BridgeToHost { advertised_sender_id: _, joiner_addr: _ } => {},
            }
            assert(commands.take(i + 1).drop_last() =~= commands.take(i as int));
            assert(handles(before, between, commands.take(i + 1).drop_last(), self.max_hosts()));
            assert(handles_one(
                between,
                self@.hosts,
                commands.take(i + 1).last(),
                self.max_hosts(),
            ));
        }
        assert(commands.take(commands.len() as int) =~= commands);
        waiting.len()
    }

    /// Registers or replaces a host. Where there are as many as may be, a new one drives out one of
    /// the others, whichever comes first.
    pub fn register_host(&mut self, server: AdvertisedServer)
        requires
            old(self).wf(),
        ensures
            final(self).wf(),
            final(self).max_hosts() == old(self).max_hosts(),
            final(self)@.pending == old(self)@.pending,
            registers(
                old(self)@.hosts,
                final(self)@.hosts,
                server@,
                old(self).max_hosts(),
            ),
    {
        let ids = keys_of(&self.hosts);
        assert(self@.hosts.dom() =~= self.hosts@.dom());
        let first: Option<u64> = if ids.len() > 0 {
            assert(ids@.to_set().contains(ids@[0]));
            Some(ids[0])
        } else {
            None
        };
        self.register_evicting(server, first);
    }

    /// Registers or replaces a host, given which of the others comes first.
    pub fn register_evicting(&mut self, server: AdvertisedServer, first: Option<u64>)
        requires
            old(self).wf(),
            match first {
                Some(id) => old(self)@.hosts.contains_key(id),
                None => old(self)@.hosts.dom().len() == 0,
            },
        ensures
            final(self).wf(),
            final(self).max_hosts() == old(self).max_hosts(),
            final(self)@ == (RelayServiceModel {
                hosts: evicting(old(self)@.hosts, server@, first, old(self).max_hosts()),
                ..old(self)@
            }),
    {
        let ghost before = self@.hosts;
        let ghost model = server@;
        let sender_id = server.sender_id;
        assert(before.dom() =~= self.hosts@.dom());
        if self.hosts.len() >= self.config.max_advertised_hosts && !self.hosts.contains_key(
            &sender_id,
        ) {
            if let Some(id) = first {
                self.hosts.remove(&id);
            }
        }
        self.hosts.insert(sender_id, server);
        assert(self@.hosts =~= evicting(before, model, first, self.max_hosts()));
        proof {
            if let Some(id) = first {
                assert(before.contains_key(id));
            }
            assert(registers(before, self@.hosts, model, self.max_hosts()));
            registered_host_is_kept(before, self@.hosts, model, self.max_hosts());
        }
    }

    /// All hosts, in whatever order they come.
    pub fn host_list(&self) -> (r: Vec<AdvertisedServer>)
        requires
            self.wf(),
        ensures
            maps::lists(
                discovery::sender_ids(discovery::advertised_views(r@)),
                self@.hosts.dom(),
            ),
            forall|i: int|
                0 <= i < r@.len() ==> (#[trigger] r@[i])@ == self@.hosts[r@[i].sender_id],
    {
        let ids = keys_of(&self.hosts);
        assert(self@.hosts.dom() =~= self.hosts@.dom());
        let mut out: Vec<AdvertisedServer> = Vec::new();
        for i in 0..ids.len()
            invariant
                self.wf(),
                maps::lists(ids@, self@.hosts.dom()),
                self@.hosts.dom() == self.hosts@.dom(),
                out@.len() == i,
                forall|k: int|
                    0 <= k < i ==> (#[trigger] out@[k]).sender_id == ids@[k] && out@[k]@
                        == self@.hosts[ids@[k]],
        {
            assert(ids@.to_set().contains(ids@[i as int]));
            assert(self@.hosts.contains_key(ids@[i as int]));
            if let Some(server) = self.hosts.get(&ids[i]) {
                out.push(server.clone());
            }
        }
        assert(discovery::sender_ids(discovery::advertised_views(out@)) =~= ids@);
        out
    }

    /// The host with an advertised id.
    pub fn host_by_sender(&self, sender_id: u64) -> (r: Option<AdvertisedServer>)
        ensures
            match r {
                Some(s) => self@.hosts.contains_key(sender_id) && s@ == self@.hosts[sender_id],
                None => !self@.hosts.contains_key(sender_id),
            },
    {
        match self.hosts.get(&sender_id) {
            Some(s) => Some(s.clone()),
            None => None,
        }
    }
}

/// A host that was just registered is found, and the hosts stay within the cap.
pub proof fn registered_host_is_kept(
    before: Map<u64, AdvertisedModel>,
    after: Map<u64, AdvertisedModel>,
    server: AdvertisedModel,
    max: nat,
)
    requires
        before.dom().finite(),
        before.dom().len() <= capacity(max),
        registers(before, after, server, max),
    ensures
        after.contains_key(server.sender_id),
        after[server.sender_id] == server,
        after.dom().finite(),
        after.dom().len() <= capacity(max),
{
    if !(before.dom().len() < max || before.contains_key(server.sender_id) || before.dom().len()
        == 0) {
        let evicted = choose|evicted: u64| #[trigger]
            before.contains_key(evicted) && after == before.remove(evicted).insert(
                server.sender_id,
                server,
            );
        assert(before.remove(evicted).dom() =~= before.dom().remove(evicted));
    }
}

/// No host is driven out while there is room, or by its own update.
pub proof fn no_eviction_while_there_is_room(
    before: Map<u64, AdvertisedModel>,
    after: Map<u64, AdvertisedModel>,
    server: AdvertisedModel,
    max: nat,
    other: u64,
)
    requires
        registers(before, after, server, max),
        before.dom().len() < max || before.contains_key(server.sender_id),
        before.contains_key(other),
        other != server.sender_id,
    ensures
        after.contains_key(other),
        after[other] == before[other],
{
}

/// A registration drives out at most one host.
pub proof fn at_most_one_is_driven_out(
    before: Map<u64, AdvertisedModel>,
    after: Map<u64, AdvertisedModel>,
    server: AdvertisedModel,
    max: nat,
    a: u64,
    b: u64,
)
    requires
        registers(before, after, server, max),
        before.contains_key(a),
        before.contains_key(b),
        !after.contains_key(a),
        !after.contains_key(b),
    ensures
        a == b,
{
}

/// What a registration does to the hosts: the new one is there as it is, every other that is there
/// was there, as it was, and their number is what it was, or one more where there was room for a new
/// one.
pub proof fn registering_touches_no_other_host(
    before: Map<u64, AdvertisedModel>,
    after: Map<u64, AdvertisedModel>,
    server: AdvertisedModel,
    max: nat,
    other: u64,
)
    requires
        registers(before, after, server, max),
        before.dom().finite(),
    ensures
        after.contains_key(server.sender_id),
        after[server.sender_id] == server,
        other != server.sender_id && after.contains_key(other) ==> before.contains_key(other)
            && after[other] == before[other],
        before.contains_key(server.sender_id) ==> after.dom() == before.dom(),
        !before.contains_key(server.sender_id) && (before.dom().len() < max || before.dom().len()
            == 0) ==> after.dom().len() == before.dom().len() + 1,
        !before.contains_key(server.sender_id) && before.dom().len() >= max && before.dom().len()
            > 0 ==> after.dom().len() == before.dom().len(),
{
    let id = server.sender_id;
    if before.dom().len() < max || before.contains_key(id) || before.dom().len() == 0 {
        assert(after.dom() =~= before.dom().insert(id));
        if before.contains_key(id) {
            assert(after.dom() =~= before.dom());
        }
    } else {
        let evicted = choose|evicted: u64| #[trigger]
            before.contains_key(evicted) && after == before.remove(evicted).insert(id, server);
        assert(after.dom() =~= before.dom().remove(evicted).insert(id));
    }
}

/// Where a host makes room for a new one, that host alone goes; where none has to, none does.
pub proof fn only_the_first_makes_room(
    before: Map<u64, AdvertisedModel>,
    server: AdvertisedModel,
    first: Option<u64>,
    max: nat,
    other: u64,
)
    ensures
        ({
            let after = evicting(before, server, first, max);
            let full = before.dom().len() >= max && !before.contains_key(server.sender_id);
            &&& after.contains_key(server.sender_id)
            &&& after[server.sender_id] == server
            &&& other != server.sender_id ==> {
                &&& after.contains_key(other) <==> before.contains_key(other) && !(full && first
                    == Some(other))
                &&& after.contains_key(other) ==> after[other] == before[other]
            }
        }),
{
}

/// A registry with a cap holds no more hosts than the cap says, and one without room for any holds
/// one.
pub proof fn cap_is_what_was_asked_for(max: nat)
    ensures
        max > 0 ==> capacity(max) == max,
        capacity(0) == 1,
{
}

/// Commands that register nothing change nothing, and without commands nothing changes.
pub proof fn questions_change_no_host(
    before: Map<u64, AdvertisedModel>,
    after: Map<u64, AdvertisedModel>,
    commands: Seq<RelayCommand>,
    max: nat,
)
    requires
        handles(before, after, commands, max),
        forall|i: int| 0 <= i < commands.len() ==> !(#[trigger] commands[i] is RegisterHost),
    ensures
        after == before,
    decreases commands.len(),
{
    if commands.len() > 0 {
        let front = commands.drop_last();
        let between = choose|between: Map<u64, AdvertisedModel>|
            {
                &&& handles(before, between, front, max)
                &&& #[trigger] handles_one(between, after, commands.last(), max)
            };
        assert forall|i: int| 0 <= i < front.len() implies !(#[trigger] front[i]
            is RegisterHost) by {
            assert(front[i] == commands[i]);
        }
        questions_change_no_host(before, between, front, max);
        assert(!(commands[commands.len() - 1] is RegisterHost));
    }
}

/// While there is room for all that are registered, every host that was there before stays, and every
/// registration arrives: the latest of each id is there afterwards, as it is.
pub proof fn registrations_all_arrive(
    before: Map<u64, AdvertisedModel>,
    after: Map<u64, AdvertisedModel>,
    commands: Seq<RelayCommand>,
    max: nat,
    other: u64,
    k: int,
    server: AdvertisedServer,
)
    requires
        handles(before, after, commands, max),
        before.dom().finite(),
        before.dom().len() + commands.len() <= max,
    ensures
        after.dom().finite(),
        after.dom().len() <= before.dom().len() + commands.len(),
        before.contains_key(other) ==> after.contains_key(other),
        0 <= k < commands.len() && commands[k] == RelayCommand::RegisterHost(server) && (forall|
            j: int,
        |
            k < j < commands.len() && #[trigger] commands[j] is RegisterHost
                ==> commands[j]->RegisterHost_0.sender_id != server.sender_id) ==> {
            &&& after.contains_key(server.sender_id)
            &&& after[server.sender_id] == server@
        },
    decreases commands.len(),
{
    if commands.len() > 0 {
        let front = commands.drop_last();
        let between = choose|between: Map<u64, AdvertisedModel>|
            {
                &&& handles(before, between, front, max)
                &&& #[trigger] handles_one(between, after, commands.last(), max)
            };
        registrations_all_arrive(before, between, front, max, other, k, server);
        if let RelayCommand::RegisterHost(last) = commands.last() {
            assert(after == between.insert(last@.sender_id, last@));
            assert(after.dom() =~= between.dom().insert(last@.sender_id));
        }
        if 0 <= k < front.len() && commands[k] == RelayCommand::RegisterHost(server) && (forall|
            j: int,
        |
            k < j < commands.len() && #[trigger] commands[j] is RegisterHost
                ==> commands[j]->RegisterHost_0.sender_id != server.sender_id) {
            assert(front[k] == commands[k]);
            assert forall|j: int|
                k < j < front.len() && #[trigger] front[j] is RegisterHost implies
                front[j]->RegisterHost_0.sender_id != server.sender_id by {
                assert(front[j] == commands[j]);
            }
            assert(between[server.sender_id] == server@);
            assert(commands[commands.len() - 1] == commands.last());
        }
    }
}

/// However many hosts there are, the one that is registered last is there in the end, as it is; and
/// whatever is there in the end was there before, as it was, or was registered in between.
pub proof fn hosts_come_from_registrations(
    before: Map<u64, AdvertisedModel>,
    after: Map<u64, AdvertisedModel>,
    commands: Seq<RelayCommand>,
    max: nat,
    id: u64,
)
    requires
        handles(before, after, commands, max),
        commands.len() > 0,
    ensures
        commands.last() matches RelayCommand::RegisterHost(server) ==> after.contains_key(
            server.sender_id,
        ) && after[server.sender_id] == server@,
        after.contains_key(id) ==> (before.contains_key(id) && after[id] == before[id]) || exists|
            k: int,
        |
            0 <= k < commands.len() && (#[trigger] commands[k]) is RegisterHost
                && commands[k]->RegisterHost_0@ == after[id],
    decreases commands.len(),
{
    let front = commands.drop_last();
    let between = choose|between: Map<u64, AdvertisedModel>|
        {
            &&& handles(before, between, front, max)
            &&& #[trigger] handles_one(between, after, commands.last(), max)
        };
    assert(commands.last() == commands[commands.len() - 1]);
    if front.len() > 0 {
        hosts_come_from_registrations(before, between, front, max, id);
    } else {
        assert(between == before);
    }
    if after.contains_key(id) {
        if commands.last() is RegisterHost && commands.last()->RegisterHost_0.sender_id == id {
            assert(commands.last()->RegisterHost_0@ == after[id]);
        } else {
            assert(between.contains_key(id) && between[id] == after[id]);
            if !(before.contains_key(id) && between[id] == before[id]) {
                let k = choose|k: int|
                    0 <= k < front.len() && (#[trigger] front[k]) is RegisterHost
                        && front[k]->RegisterHost_0@ == between[id];
                assert(commands[k] == front[k]);
            }
        }
    }
}

} // verus!
