//! Client-side bookkeeping of a multiplexed connection: the ids handed to
//! outgoing calls and the callers still waiting for their reply. `T` is
//! whatever the runtime uses to hand a reply back to its caller.
use vstd::prelude::*;
use std::collections::HashMap;
use crate::jsonrpc::{Id, Request, Response, RpcError};
use crate::json::{json_from_bytes, json_null, null_text};

verus! {

broadcast use vstd::std_specs::hash::group_hash_axioms;

/// Ids one connection of a pool may use: each connection gets its own range
/// of a million ids.
pub const IDS_PER_CONNECTION: u64 = 1_000_000;

/// The first id used by connection `index` of a pool (connection 0 starts at 1).
pub fn conn_id_base(index: u64) -> (r: u64)
    requires
        index * IDS_PER_CONNECTION + 1 <= u64::MAX,
    ensures
        r == index * IDS_PER_CONNECTION + 1,
{
    index * IDS_PER_CONNECTION + 1
}

/// `v` is the value a successful reply carrying `result` hands back: the
/// result itself, or `null` when the reply has none.
pub open spec fn result_or_null(result: Option<serde_json::Value>, v: serde_json::Value) -> bool {
    match result {
        Some(x) => v == x,
        None => json_from_bytes(null_text()) == Some(v),
    }
}

/// Calls in flight on one connection: the next id to use and, per id, the
/// caller waiting for its reply.
pub struct PendingCalls<T> {
    next_id: u64,
    pending: HashMap<u64, T>,
}

impl<T> View for PendingCalls<T> {
    type V = (u64, Map<u64, T>);

    closed spec fn view(&self) -> (u64, Map<u64, T>) {
        (self.next_id, self.pending@)
    }
}

impl<T> PendingCalls<T> {
    /// Nothing in flight; ids start at `id_base`.
    pub fn new(id_base: u64) -> (r: PendingCalls<T>)
        ensures
            r@ == (id_base, Map::<u64, T>::empty()),
    {
        PendingCalls { next_id: id_base, pending: HashMap::new() }
    }

    /// The id the next call will take.
    pub fn next_id(&self) -> (r: u64)
        ensures
            r == self@.0,
    {
        self.next_id
    }

    /// The request for the next call of `method` with `params`: it takes the
    /// next id, which is then used up.
    pub fn next_request(&mut self, method: &str, params: serde_json::Value) -> (r: Request)
        requires
            old(self)@.0 < u64::MAX,
        ensures
            r.jsonrpc@ == "2.0"@,
            r.id == Some(Id::Num(old(self)@.0)),
            r.method@ == method@,
            r.params == params,
            final(self)@ == ((old(self)@.0 + 1) as u64, old(self)@.1),
    {
        let id = self.next_id;
        self.next_id = id + 1;
        Request::call(id, method, params)
    }

    /// Wait for the reply to the call with id `id` on behalf of `caller`.
    pub fn track(&mut self, id: u64, caller: T)
        ensures
            final(self)@ == (old(self)@.0, old(self)@.1.insert(id, caller)),
    {
        self.pending.insert(id, caller);
    }

    /// Route a reply that arrived: when it answers a call in flight, that
    /// call is no longer pending and its caller is handed the outcome (the
    /// reply's error, else its result, `null` when absent); any other reply
    /// is dropped, nothing changed.
    pub fn on_response(&mut self, resp: Response) -> (r: Option<(T, Result<serde_json::Value, RpcError>)>)
        ensures
            match resp.id {
                Id::Num(n) if old(self)@.1.contains_key(n) => {
                    &&& r matches Some((caller, outcome)) && caller == old(self)@.1[n] && match resp.error {
                        Some(e) => outcome == Err::<serde_json::Value, RpcError>(e),
                        None => outcome matches Ok(v) && result_or_null(resp.result, v),
                    }
                    &&& final(self)@ == (old(self)@.0, old(self)@.1.remove(n))
                },
                _ => r is None && final(self)@ == old(self)@,
            },
    {
        let n = match resp.id {
            Id::Num(n) => n,
            _ => {
                return None;
            },
        };
        match self.pending.remove(&n) {
            Some(caller) => {
                let outcome = match resp.error {
                    Some(e) => Err(e),
                    None => match resp.result {
                        Some(v) => Ok(v),
                        None => Ok(json_null()),
                    },
                };
                Some((caller, outcome))
            },
            None => None,
        }
    }
}

} // verus!
