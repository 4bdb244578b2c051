//! Leader/follower election backed by a lease: a candidate that acquires the
//! lease for its key becomes leader with a fresh term; it stays leader until
//! it resigns. Acquiring and releasing the lease file is done by the runtime.
use vstd::prelude::*;
use vstd::string::*;
use crate::lease::LeaseLock;
use crate::text::{dec_text, push_decimal_text, string_of};
use crate::types::LeaderAnnounce;

verus! {

impl LeaderAnnounce {
    /// A copy of this announcement.
    pub fn duplicate(&self) -> (r: LeaderAnnounce)
        ensures
            r == *self,
    {
        LeaderAnnounce {
            node_id: self.node_id.clone(),
            leader_instance_id: self.leader_instance_id.clone(),
            term: self.term,
            acquired_at: self.acquired_at.clone(),
            lease_ttl_secs: self.lease_ttl_secs,
        }
    }
}

/// Lease-backed leader elector. One per group/device.
#[derive(Debug)]
pub struct LeaseLeaderElector {
    lock: LeaseLock,
    key: String,
    node_id: String,
    instance_id: String,
    term: u64,
    held: Option<LeaderAnnounce>,
}

/// The seconds recorded as a lease's TTL: the TTL, capped at `u32::MAX`.
pub open spec fn ttl_secs_u32(ttl_secs: u64) -> u32 {
    if ttl_secs > u32::MAX as u64 {
        u32::MAX
    } else {
        ttl_secs as u32
    }
}

impl LeaseLeaderElector {
    /// The last term handed out (0 before the first acquisition).
    pub closed spec fn spec_term(&self) -> u64 {
        self.term
    }

    /// The announcement of the held leadership, if this candidate leads.
    pub closed spec fn spec_held(&self) -> Option<LeaderAnnounce> {
        self.held
    }

    /// The lease key.
    pub closed spec fn spec_key(&self) -> Seq<char> {
        self.key@
    }

    /// This node's id.
    pub closed spec fn spec_node_id(&self) -> Seq<char> {
        self.node_id@
    }

    /// This candidate's instance id.
    pub closed spec fn spec_instance_id(&self) -> Seq<char> {
        self.instance_id@
    }

    /// The lease lock the candidate competes on.
    pub closed spec fn spec_lock(&self) -> LeaseLock {
        self.lock
    }

    #[verifier::type_invariant]
    closed spec fn inv(&self) -> bool {
        self.held matches Some(a) ==> a.term == self.term
    }

    /// Create an elector. `lock_root` is the directory holding lease files.
    pub fn new(lock_root: std::path::PathBuf, node_id: String, instance_id: String, key: String) -> (r: LeaseLeaderElector)
        ensures
            r.spec_lock().spec_root() == lock_root,
            r.spec_node_id() == node_id@,
            r.spec_instance_id() == instance_id@,
            r.spec_key() == key@,
            r.spec_term() == 0,
            r.spec_held() is None,
    {
        LeaseLeaderElector {
            lock: LeaseLock::new(lock_root),
            key,
            node_id,
            instance_id,
            term: 0,
            held: None,
        }
    }

    /// The lease lock the candidate competes on.
    pub fn lock(&self) -> (r: &LeaseLock)
        ensures
            *r == self.spec_lock(),
    {
        &self.lock
    }

    /// The lease key.
    pub fn key(&self) -> (r: &str)
        ensures
            r@ == self.spec_key(),
    {
        self.key.as_str()
    }

    /// The last term handed out (0 before the first acquisition).
    pub fn term(&self) -> (r: u64)
        ensures
            r == self.spec_term(),
    {
        self.term
    }

    /// Record that the lease was acquired with a TTL of `ttl_secs` at
    /// `acquired_at`: the term advances by one and this candidate leads
    /// under the new term. Returns `true` (now leader).
    pub fn on_acquired(&mut self, ttl_secs: u64, acquired_at: String) -> (r: bool)
        requires
            old(self).spec_term() < u64::MAX,
        ensures
            r,
            final(self).spec_term() == old(self).spec_term() + 1,
            final(self).spec_held() matches Some(a) && {
                &&& a.node_id@ == old(self).spec_node_id()
                &&& a.leader_instance_id@ == old(self).spec_instance_id()
                &&& a.term == old(self).spec_term() + 1
                &&& a.acquired_at == acquired_at
                &&& a.lease_ttl_secs == ttl_secs_u32(ttl_secs)
            },
            final(self).spec_key() == old(self).spec_key(),
            final(self).spec_node_id() == old(self).spec_node_id(),
            final(self).spec_instance_id() == old(self).spec_instance_id(),
            final(self).spec_lock() == old(self).spec_lock(),
    {
        let term = self.term + 1;
        let lease_ttl_secs: u32 = if ttl_secs > u32::MAX as u64 { u32::MAX } else { ttl_secs as u32 };
        let announce = LeaderAnnounce {
            node_id: self.node_id.clone(),
            leader_instance_id: self.instance_id.clone(),
            term,
            acquired_at,
            lease_ttl_secs,
        };
        self.held = None;
        self.term = term;
        self.held = Some(announce);
        true
    }

    /// Whether this candidate still leads (the lease renews itself while
    /// held).
    pub fn renew(&self) -> (r: bool)
        ensures
            r == self.spec_held() is Some,
    {
        self.held.is_some()
    }

    /// The current leadership announcement, if this candidate leads; it
    /// always carries the latest term.
    pub fn current(&self) -> (r: Option<LeaderAnnounce>)
        ensures
            r == self.spec_held(),
            r matches Some(a) ==> a.term == self.spec_term(),
    {
        proof {
            use_type_invariant(self);
        }
        match &self.held {
            Some(a) => Some(a.duplicate()),
            None => None,
        }
    }

    /// Step down: forget the held leadership (the runtime releases the lease).
    /// Returns whether a lease was held.
    pub fn resign(&mut self) -> (r: bool)
        ensures
            r == old(self).spec_held() is Some,
            final(self).spec_held() is None,
            final(self).spec_term() == old(self).spec_term(),
            final(self).spec_key() == old(self).spec_key(),
            final(self).spec_node_id() == old(self).spec_node_id(),
            final(self).spec_instance_id() == old(self).spec_instance_id(),
            final(self).spec_lock() == old(self).spec_lock(),
    {
        let was = self.held.is_some();
        self.held = None;
        was
    }
}

/// The acquisition stamp `epoch:{secs}`.
pub open spec fn epoch_stamp_text(secs: u64) -> Seq<char> {
    "epoch:"@ + dec_text(secs as nat)
}

/// Minimal timestamp without a date crate: `epoch:{secs}` (seconds since
/// the Unix epoch).
pub fn epoch_stamp(secs: u64) -> (r: String)
    ensures
        r@ == epoch_stamp_text(secs),
{
    let mut s = string_of("epoch:");
    push_decimal_text(&mut s, secs);
    s
}

} // verus!
