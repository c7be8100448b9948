//! Who may join the local world.

use std::collections::HashSet;

use vstd::prelude::*;

use crate::maps::copy_of;

verus! {

broadcast use vstd::std_specs::hash::group_hash_axioms;

/// The blocked players, and the followers who may join while only followers may.
#[derive(Debug)]
pub struct AccessControl {
    blocked_players: HashSet<u32>,
    followers_only: bool,
    allowed_followers: HashSet<u32>,
}

/// An [`AccessControl`] as mathematical values.
#[verifier::ext_equal]
pub struct AccessModel {
    pub blocked: Set<u32>,
    pub followers_only: bool,
    pub followers: Set<u32>,
}

impl View for AccessControl {
    type V = AccessModel;

    closed spec fn view(&self) -> AccessModel {
        AccessModel {
            blocked: self.blocked_players@,
            followers_only: self.followers_only,
            followers: self.allowed_followers@,
        }
    }
}

/// Whether a player may join: one who is not blocked and, while only followers may, is a follower.
pub open spec fn allows(m: AccessModel, client_id: u32) -> bool {
    !m.blocked.contains(client_id) && (m.followers_only ==> m.followers.contains(client_id))
}

impl Clone for AccessControl {
    fn clone(&self) -> (r: Self)
        ensures
            r@ == self@,
    {
        AccessControl {
            blocked_players: copy_of(&self.blocked_players),
            followers_only: self.followers_only,
            allowed_followers: copy_of(&self.allowed_followers),
        }
    }
}

impl Default for AccessControl {
    fn default() -> (r: Self)
        ensures
            r@ == (AccessModel {
                blocked: Set::empty(),
                followers_only: false,
                followers: Set::empty(),
            }),
    {
        AccessControl {
            blocked_players: HashSet::new(),
            followers_only: false,
            allowed_followers: HashSet::new(),
        }
    }
}

impl AccessControl {
    /// Everyone may join.
    pub fn new() -> (r: Self)
        ensures
            r@ == (AccessModel {
                blocked: Set::empty(),
                followers_only: false,
                followers: Set::empty(),
            }),
    {
        AccessControl::default()
    }

    pub fn block_player(&mut self, client_id: u32)
        ensures
            final(self)@ == (AccessModel {
                blocked: old(self)@.blocked.insert(client_id),
                ..old(self)@
            }),
    {
        self.blocked_players.insert(client_id);
    }

    pub fn unblock_player(&mut self, client_id: u32)
        ensures
            final(self)@ == (AccessModel {
                blocked: old(self)@.blocked.remove(client_id),
                ..old(self)@
            }),
    {
        self.blocked_players.remove(&client_id);
    }

    pub fn is_blocked(&self, client_id: u32) -> (r: bool)
        ensures
            r == self@.blocked.contains(client_id),
    {
        self.blocked_players.contains(&client_id)
    }

    pub fn set_followers_only(&mut self, enabled: bool)
        ensures
            final(self)@ == (AccessModel { followers_only: enabled, ..old(self)@ }),
    {
        self.followers_only = enabled;
    }

    pub fn add_follower(&mut self, client_id: u32)
        ensures
            final(self)@ == (AccessModel {
                followers: old(self)@.followers.insert(client_id),
                ..old(self)@
            }),
    {
        self.allowed_followers.insert(client_id);
    }

    pub fn remove_follower(&mut self, client_id: u32)
        ensures
            final(self)@ == (AccessModel {
                followers: old(self)@.followers.remove(client_id),
                ..old(self)@
            }),
    {
        self.allowed_followers.remove(&client_id);
    }

    /// Whether a player may join.
    pub fn is_allowed(&self, client_id: u32) -> (r: bool)
        ensures
            r == allows(self@, client_id),
    {
        if self.blocked_players.contains(&client_id) {
            return false;
        }
        if self.followers_only && !self.allowed_followers.contains(&client_id) {
            return false;
        }
        true
    }
}

/// A block outranks following: a blocked player may not join, follower or not.
pub proof fn blocked_is_never_allowed(m: AccessModel, client_id: u32)
    ensures
        !allows(AccessModel { blocked: m.blocked.insert(client_id), ..m }, client_id),
        !allows(
            AccessModel {
                blocked: m.blocked.insert(client_id),
                followers: m.followers.insert(client_id),
                ..m
            },
            client_id,
        ),
{
}

/// Unblocking undoes blocking, and neither decides about anyone else.
pub proof fn unblock_undoes_block(m: AccessModel, client_id: u32, other: u32)
    requires
        !m.blocked.contains(client_id),
    ensures
        m.blocked.insert(client_id).remove(client_id) == m.blocked,
        other != client_id ==> allows(
            AccessModel { blocked: m.blocked.insert(client_id), ..m },
            other,
        ) == allows(m, other),
{
    assert(m.blocked.insert(client_id).remove(client_id) =~= m.blocked);
}

/// Who is not blocked may join an open world; while only followers may, of these just the followers.
pub proof fn everyone_else_may_join(m: AccessModel, client_id: u32)
    requires
        !m.blocked.contains(client_id),
    ensures
        !m.followers_only ==> allows(m, client_id),
        m.followers_only ==> (allows(m, client_id) <==> m.followers.contains(client_id)),
        allows(AccessModel { followers: m.followers.insert(client_id), ..m }, client_id),
        m.followers_only ==> !allows(
            AccessModel { followers: m.followers.remove(client_id), ..m },
            client_id,
        ),
{
}

} // verus!
