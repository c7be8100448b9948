//! The live sessions of a node.

use vstd::prelude::*;

use crate::vec_map;
use crate::vec_map::{MapKey, VecMap};

verus! {

/// A NetherNet endpoint: a network and a connection inside it.
#[derive(Debug)]
pub struct Addr {
    pub network_id: String,
    pub connection_id: u64,
}

impl View for Addr {
    type V = (Seq<char>, u64);

    open spec fn view(&self) -> (Seq<char>, u64) {
        (self.network_id@, self.connection_id)
    }
}

impl Clone for Addr {
    fn clone(&self) -> (r: Self)
        ensures
            r@ == self@,
    {
        Addr { network_id: self.network_id.clone(), connection_id: self.connection_id }
    }
}

impl MapKey for Addr {
    fn same_key(&self, other: &Self) -> (r: bool) {
        self.network_id == other.network_id && self.connection_id == other.connection_id
    }
}

/// What a list of live sessions says of each.
#[derive(Debug)]
pub struct SessionSummary {
    /// NetherNet network id of the remote peer.
    pub network_id: String,
    /// Connection id inside the network.
    pub connection_id: u64,
    /// Local transport address of the session.
    pub local_addr: Addr,
    /// Remote transport address of the session.
    pub remote_addr: Addr,
}

impl Clone for SessionSummary {
    fn clone(&self) -> (r: Self)
        ensures
            r.network_id@ == self.network_id@,
            r.connection_id == self.connection_id,
            r.local_addr@ == self.local_addr@,
            r.remote_addr@ == self.remote_addr@,
    {
        SessionSummary {
            network_id: self.network_id.clone(),
            connection_id: self.connection_id,
            local_addr: self.local_addr.clone(),
            remote_addr: self.remote_addr.clone(),
        }
    }
}

impl<S> Default for SessionRegistry<S> {
    fn default() -> (r: Self)
        ensures
            r.wf(),
            r@ == Map::<(Seq<char>, u64), S>::empty(),
    {
        SessionRegistry::new()
    }
}

/// The live sessions by network and connection id. A session is whatever handle the transport
/// gives out.
pub struct SessionRegistry<S> {
    sessions: VecMap<Addr, S>,
}

impl<S> View for SessionRegistry<S> {
    type V = Map<(Seq<char>, u64), S>;

    closed spec fn view(&self) -> Map<(Seq<char>, u64), S> {
        self.sessions@
    }
}

impl<S> SessionRegistry<S> {
    /// Whether each key occurs once.
    pub closed spec fn wf(&self) -> bool {
        self.sessions.wf()
    }

    /// The keys and handles in the order in which they are listed.
    pub closed spec fn listed(&self) -> Seq<(Addr, S)> {
        self.sessions.listed()
    }

    /// The list holds every session once.
    pub proof fn list_is_complete(&self)
        requires
            self.wf(),
        ensures
            self.listed().len() == self@.len(),
            vec_map::entries_map(self.listed()) == self@,
            vec_map::distinct_keys(self.listed()),
    {
        self.sessions.listed_is_the_map();
    }

    pub fn new() -> (r: Self)
        ensures
            r.wf(),
            r@ == Map::<(Seq<char>, u64), S>::empty(),
    {
        SessionRegistry { sessions: VecMap::new() }
    }

    /// Inserts or replaces the session under a key.
    pub fn upsert(&mut self, network_id: String, connection_id: u64, session: S)
        requires
            old(self).wf(),
        ensures
            final(self).wf(),
            final(self)@ == old(self)@.insert((network_id@, connection_id), session),
    {
        self.sessions.insert(Addr { network_id, connection_id }, session);
    }

    /// Takes out the session under a key.
    pub fn remove(&mut self, network_id: &str, connection_id: u64)
        requires
            old(self).wf(),
        ensures
            final(self).wf(),
            final(self)@ == old(self)@.remove((network_id@, connection_id)),
    {
        self.sessions.remove(&Addr { network_id: network_id.to_owned(), connection_id });
    }

    /// The session under a key.
    pub fn get(&self, network_id: &str, connection_id: u64) -> (r: Option<&S>)
        requires
            self.wf(),
        ensures
            match r {
                Some(s) => self@.contains_key((network_id@, connection_id)) && *s == self@[(
                    network_id@,
                    connection_id,
                )],
                None => !self@.contains_key((network_id@, connection_id)),
            },
    {
        self.sessions.get(&Addr { network_id: network_id.to_owned(), connection_id })
    }

    /// The handle at a place of the list.
    pub fn handle(&self, i: usize) -> (r: &S)
        requires
            i < self.listed().len(),
        ensures
            *r == self.listed()[i as int].1,
    {
        &self.sessions.entry(i).1
    }

    /// The keys of all sessions, in the order of the list.
    pub fn keys(&self) -> (r: Vec<Addr>)
        requires
            self.wf(),
        ensures
            r@.len() == self.listed().len(),
            forall|i: int| 0 <= i < r@.len() ==> (#[trigger] r@[i])@ == self.listed()[i].0@,
    {
        let count = self.sessions.len();
        let mut out: Vec<Addr> = Vec::new();
        for i in 0..count
            invariant
                count == self.sessions.listed().len(),
                out@.len() == i,
                forall|k: int| 0 <= k < i ==> (#[trigger] out@[k])@ == self.listed()[k].0@,
        {
            let key = self.sessions.entry(i).0.clone();
            out.push(key);
        }
        out
    }

    /// What is said of sessions with these keys, whose local and remote addresses are given in the
    /// same order.
    pub fn snapshot(keys: &Vec<Addr>, addrs: &Vec<(Addr, Addr)>) -> (r: Vec<SessionSummary>)
        requires
            addrs@.len() == keys@.len(),
        ensures
            r@.len() == keys@.len(),
            forall|i: int|
                #![trigger r@[i]]
                0 <= i < r@.len() ==> {
                    &&& (r@[i].network_id@, r@[i].connection_id) == keys@[i]@
                    &&& r@[i].local_addr@ == addrs@[i].0@
                    &&& r@[i].remote_addr@ == addrs@[i].1@
                },
    {
        let mut out: Vec<SessionSummary> = Vec::new();
        for i in 0..addrs.len()
            invariant
                addrs@.len() == keys@.len(),
                out@.len() == i,
                forall|k: int|
                    #![trigger out@[k]]
                    0 <= k < i ==> {
                        &&& (out@[k].network_id@, out@[k].connection_id) == keys@[k]@
                        &&& out@[k].local_addr@ == addrs@[k].0@
                        &&& out@[k].remote_addr@ == addrs@[k].1@
                    },
        {
            let key = keys[i].clone();
            out.push(
                SessionSummary {
                    network_id: key.network_id,
                    connection_id: key.connection_id,
                    local_addr: addrs[i].0.clone(),
                    remote_addr: addrs[i].1.clone(),
                },
            );
        }
        out
    }

    /// How many sessions there are.
    pub fn len(&self) -> (r: usize)
        requires
            self.wf(),
        ensures
            r == self@.len(),
            r == self.listed().len(),
    {
        self.sessions.len()
    }
}

/// A session is found under the key that it was inserted with, until it is removed or replaced, and
/// no other key is touched.
pub proof fn upserted_session_is_found<S>(
    m: Map<(Seq<char>, u64), S>,
    key: (Seq<char>, u64),
    first: S,
    second: S,
    other: (Seq<char>, u64),
)
    ensures
        m.insert(key, first).contains_key(key),
        m.insert(key, first)[key] == first,
        m.insert(key, first).insert(key, second) == m.insert(key, second),
        !m.insert(key, first).remove(key).contains_key(key),
        other != key ==> m.insert(key, first).contains_key(other) == m.contains_key(other)
            && m.insert(key, first)[other] == m[other],
{
    assert(m.insert(key, first).insert(key, second) =~= m.insert(key, second));
}

} // verus!
