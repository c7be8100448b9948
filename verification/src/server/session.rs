//! The relay's registry of peers and their endpoints.

use std::collections::HashMap;

use vstd::prelude::*;

use crate::addr::SocketAddr;
use crate::maps;
use crate::maps::keys_of;
use crate::time;
use crate::time::{Duration, Instant};
use crate::vec_map::VecMap;

verus! {

broadcast use vstd::std_specs::hash::group_hash_axioms;

/// A peer, where it was last seen and when.
#[derive(Clone, Copy, Debug, PartialEq, Eq, Structural)]
pub struct Session {
    pub session_id: u32,
    pub socket_addr: SocketAddr,
    pub last_seen: Instant,
}

/// Peers by session id and by endpoint.
pub struct SessionRegistry {
    sessions: HashMap<u32, Session>,
    addr_to_id: VecMap<SocketAddr, u32>,
}

impl View for SessionRegistry {
    type V = Map<u32, Session>;

    closed spec fn view(&self) -> Map<u32, Session> {
        self.sessions@
    }
}

/// The registry after a peer checked in: whoever else was at its endpoint is gone.
pub open spec fn registered(
    m: Map<u32, Session>,
    session_id: u32,
    socket_addr: SocketAddr,
    now: Instant,
) -> Map<u32, Session> {
    m.filter_keys(|id: u32| m[id].socket_addr != socket_addr).insert(
        session_id,
        Session { session_id, socket_addr, last_seen: now },
    )
}

/// The registry without the peers that have been silent for longer than the timeout.
pub open spec fn pruned(m: Map<u32, Session>, now: Instant, timeout: Duration) -> Map<
    u32,
    Session,
> {
    m.filter_keys(|id: u32| !time::timed_out(m[id].last_seen, now, timeout))
}

/// Whether each session stands under its own id and no two share an endpoint.
pub open spec fn sessions_consistent(m: Map<u32, Session>) -> bool {
    &&& forall|id: u32| #[trigger] m.contains_key(id) ==> m[id].session_id == id
    &&& forall|a: u32, b: u32| #[trigger]
        m.contains_key(a) && #[trigger] m.contains_key(b) && m[a].socket_addr == m[b].socket_addr
            ==> a == b
}

impl SessionRegistry {
    /// Whether the two tables are each other's inverse.
    pub closed spec fn wf(&self) -> bool {
        &&& self.addr_to_id.wf()
        &&& forall|id: u32| #[trigger]
            self.sessions@.contains_key(id) ==> {
                &&& self.sessions@[id].session_id == id
                &&& self.addr_to_id@.contains_key(self.sessions@[id].socket_addr)
                &&& self.addr_to_id@[self.sessions@[id].socket_addr] == id
            }
        &&& forall|a: SocketAddr| #[trigger]
            self.addr_to_id@.contains_key(a) ==> {
                &&& self.sessions@.contains_key(self.addr_to_id@[a])
                &&& self.sessions@[self.addr_to_id@[a]].socket_addr == a
            }
    }

    /// In every registry each session stands under its own id and no two share an endpoint.
    pub proof fn registry_is_consistent(&self)
        requires
            self.wf(),
        ensures
            sessions_consistent(self@),
            self@.dom().finite(),
    {
        assert forall|a: u32, b: u32| #[trigger]
            self@.contains_key(a) && #[trigger] self@.contains_key(b) && self@[a].socket_addr
                == self@[b].socket_addr implies a == b by {
            assert(self.addr_to_id@[self@[a].socket_addr] == a);
        }
    }

    pub fn new() -> (r: Self)
        ensures
            r.wf(),
            r@ == Map::<u32, Session>::empty(),
    {
        SessionRegistry { sessions: HashMap::new(), addr_to_id: VecMap::new() }
    }

    /// Registers or refreshes a peer session with its current public UDP endpoint. Tells whether
    /// the session is new.
    pub fn register_or_refresh(
        &mut self,
        session_id: u32,
        socket_addr: SocketAddr,
        now: Instant,
    ) -> (r: bool)
        requires
            old(self).wf(),
        ensures
            final(self).wf(),
            final(self)@ == registered(old(self)@, session_id, socket_addr, now),
            r == !old(self)@.contains_key(session_id),
    {
        let ghost before = self.sessions@;
        let ghost index = self.addr_to_id@;
        let session = Session { session_id, socket_addr, last_seen: now };
        let previous: Option<u32> = match self.addr_to_id.get(&socket_addr) {
            Some(id) => Some(*id),
            None => None,
        };
        if let Some(previous_id) = previous {
            if previous_id != session_id {
                self.sessions.remove(&previous_id);
            }
        }
        let existing: Option<SocketAddr> = match self.sessions.get(&session_id) {
            Some(s) => Some(s.socket_addr),
            None => None,
        };
        let is_new = match existing {
            Some(old_addr) => {
                if old_addr != socket_addr {
                    self.addr_to_id.remove(&old_addr);
                    self.addr_to_id.insert(socket_addr, session_id);
                }
                self.sessions.insert(session_id, session);
                false
            },
            None => {
                self.sessions.insert(session_id, session);
                self.addr_to_id.insert(socket_addr, session_id);
                true
            },
        };
        proof {
            let after = registered(before, session_id, socket_addr, now);
            assert forall|id: u32| #[trigger]
                after.dom().contains(id) == self.sessions@.dom().contains(id) && (
                after.dom().contains(id) ==> after[id] == self.sessions@[id]) by {
                if before.contains_key(id) {
                    assert(index.contains_key(before[id].socket_addr));
                    assert(index[before[id].socket_addr] == id);
                }
            }
            assert(after == self.sessions@);
            assert forall|id: u32| #[trigger] self.sessions@.contains_key(id) implies {
                &&& self.sessions@[id].session_id == id
                &&& self.addr_to_id@.contains_key(self.sessions@[id].socket_addr)
                &&& self.addr_to_id@[self.sessions@[id].socket_addr] == id
            } by {
                if id != session_id {
                    assert(before.contains_key(id));
                }
            }
            assert forall|a: SocketAddr| #[trigger] self.addr_to_id@.contains_key(a) implies {
                &&& self.sessions@.contains_key(self.addr_to_id@[a])
                &&& self.sessions@[self.addr_to_id@[a]].socket_addr == a
            } by {
                if a != socket_addr {
                    assert(index.contains_key(a));
                    assert(before.contains_key(index[a]));
                }
            }
        }
        is_new
    }

    /// The endpoint of a session.
    pub fn get_addr(&self, session_id: u32) -> (r: Option<SocketAddr>)
        ensures
            r == (if self@.contains_key(session_id) {
                Some(self@[session_id].socket_addr)
            } else {
                None
            }),
    {
        match self.sessions.get(&session_id) {
            Some(s) => Some(s.socket_addr),
            None => None,
        }
    }

    /// The session at an endpoint.
    pub fn get_id_by_addr(&self, addr: &SocketAddr) -> (r: Option<u32>)
        requires
            self.wf(),
        ensures
            match r {
                Some(id) => self@.contains_key(id) && self@[id].socket_addr == *addr,
                None => forall|id: u32| #[trigger]
                    self@.contains_key(id) ==> self@[id].socket_addr != *addr,
            },
    {
        match self.addr_to_id.get(addr) {
            Some(id) => Some(*id),
            None => None,
        }
    }

    /// Takes a session out and gives its endpoint.
    pub fn remove(&mut self, session_id: u32) -> (r: Option<SocketAddr>)
        requires
            old(self).wf(),
        ensures
            final(self).wf(),
            final(self)@ == old(self)@.remove(session_id),
            r == (if old(self)@.contains_key(session_id) {
                Some(old(self)@[session_id].socket_addr)
            } else {
                None
            }),
    {
        let ghost before = self.sessions@;
        match self.sessions.remove(&session_id) {
            Some(session) => {
                self.addr_to_id.remove(&session.socket_addr);
                assert forall|id: u32| #[trigger] self.sessions@.contains_key(id) implies {
                    &&& self.sessions@[id].session_id == id
                    &&& self.addr_to_id@.contains_key(self.sessions@[id].socket_addr)
                    &&& self.addr_to_id@[self.sessions@[id].socket_addr] == id
                } by {
                    assert(before.contains_key(id));
                }
                Some(session.socket_addr)
            },
            None => {
                assert(before.remove(session_id) == before);
                None
            },
        }
    }

    /// Takes out the sessions that have not checked in within the timeout and gives their ids, in
    /// whatever order they come.
    pub fn prune_stale(&mut self, timeout: Duration, now: Instant) -> (r: Vec<u32>)
        requires
            old(self).wf(),
        ensures
            final(self).wf(),
            final(self)@ == pruned(old(self)@, now, timeout),
            maps::lists(r@, old(self)@.dom().difference(final(self)@.dom())),
    {
        let ghost before = self@;
        let ghost silent = |id: u32| time::timed_out(before[id].last_seen, now, timeout);
        let ids = keys_of(&self.sessions);
        let mut timed_out: Vec<u32> = Vec::new();
        proof {
            maps::walk_begins(before, ids@, silent);
            assert(timed_out@.to_set() =~= Set::<u32>::empty());
        }
        for i in 0..ids.len()
            invariant
                self.wf(),
                maps::lists(ids@, before.dom()),
                forall|id: u32| #[trigger]
                    silent(id) == time::timed_out(before[id].last_seen, now, timeout),
                self@ == maps::kept(before, ids@.take(i as int), silent),
                timed_out@.no_duplicates(),
                timed_out@.to_set() == before.dom().difference(self@.dom()),
        {
            let id = ids[i];
            let ghost pruned_ids = timed_out@;
            proof {
                maps::walk_goes_on(before, ids@, i as int, silent);
            }
            let seen: Option<Instant> = match self.sessions.get(&id) {
                Some(s) => Some(s.last_seen),
                None => None,
            };
            assert(seen == Some(before[id].last_seen));
            if let Some(last_seen) = seen {
                if now.timed_out(last_seen, timeout) {
                    assert(silent(id));
                    self.remove(id);
                    timed_out.push(id);
                    proof {
                        maps::push_adds_to_set(pruned_ids, id);
                    }
                }
            }
        }
        proof {
            maps::walk_ends(before, ids@, silent);
            assert(self@ =~= pruned(before, now, timeout));
            timed_out@.unique_seq_to_set();
        }
        timed_out
    }

    /// How many sessions there are.
    pub fn count(&self) -> (r: usize)
        ensures
            r == self@.len(),
    {
        self.sessions.len()
    }

    /// The ids of all sessions, in whatever order they come.
    pub fn active_sessions(&self) -> (r: Vec<u32>)
        ensures
            maps::lists(r@, self@.dom()),
    {
        keys_of(&self.sessions)
    }
}

impl Default for SessionRegistry {
    fn default() -> (r: Self)
        ensures
            r.wf(),
            r@ == Map::<u32, Session>::empty(),
    {
        SessionRegistry::new()
    }
}

/// A peer that checks in is registered at its endpoint, seen just then. Whoever else was at that
/// endpoint is gone; everyone else stays exactly as they were, and nobody appears.
pub proof fn checking_in_moves_nobody_else(
    m: Map<u32, Session>,
    id: u32,
    at: SocketAddr,
    now: Instant,
    other: u32,
)
    ensures
        registered(m, id, at, now).contains_key(id),
        registered(m, id, at, now)[id].session_id == id,
        registered(m, id, at, now)[id].socket_addr == at,
        registered(m, id, at, now)[id].last_seen == now,
        other != id ==> (registered(m, id, at, now).contains_key(other) <==> m.contains_key(other)
            && m[other].socket_addr != at),
        other != id && m.contains_key(other) && m[other].socket_addr != at ==> registered(
            m,
            id,
            at,
            now,
        )[other] == m[other],
{
}

/// Pruning takes out exactly the peers that have been silent for more than the timeout, and leaves
/// the others as they were.
pub proof fn pruning_takes_the_silent(
    m: Map<u32, Session>,
    now: Instant,
    timeout: Duration,
    id: u32,
)
    ensures
        pruned(m, now, timeout).contains_key(id) <==> m.contains_key(id) && now.nanos
            <= m[id].last_seen.nanos + timeout.nanos,
        pruned(m, now, timeout).contains_key(id) ==> pruned(m, now, timeout)[id] == m[id],
{
}

/// In order are sessions that stand under their own ids, of which no two share an endpoint.
pub proof fn order_means_own_ids_and_endpoints(m: Map<u32, Session>, a: u32, b: u32)
    requires
        sessions_consistent(m),
        m.contains_key(a),
        m.contains_key(b),
    ensures
        m[a].session_id == a,
        a != b ==> m[a].socket_addr != m[b].socket_addr,
{
}

} // verus!
