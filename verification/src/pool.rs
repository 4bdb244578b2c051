//! Pod pool bookkeeping: which backend port each pod is given.
use vstd::prelude::*;
use std::collections::HashMap;
use crate::ring::{Backend, BackendAddr};
use crate::text::{dec_text, push_decimal_text, string_of};

verus! {

broadcast use vstd::std_specs::hash::group_hash_axioms;

/// `ports` with every occurrence of `skip` left out, order kept.
pub open spec fn without(ports: Seq<u16>, skip: u16) -> Seq<u16>
    decreases ports.len(),
{
    if ports.len() == 0 {
        Seq::empty()
    } else if ports.last() == skip {
        without(ports.drop_last(), skip)
    } else {
        without(ports.drop_last(), skip).push(ports.last())
    }
}

/// The port assignment for `count` pods: pod `i` gets the `i`-th candidate
/// port that is not `skip`, for as many pods as there are such ports.
pub open spec fn spec_assignment(ports: Seq<u16>, count: nat, skip: u16) -> Map<usize, u16> {
    let f = without(ports, skip);
    Map::new(
        |i: usize| (i as int) < f.len() && (i as nat) < count,
        |i: usize| f[i as int],
    )
}

/// Assign `count` pods distinct ports from `ports`, skipping `skip`: pod `i`
/// gets the `i`-th usable port.
pub fn assign_ports(ports: Vec<u16>, count: usize, skip: u16) -> (r: HashMap<usize, u16>)
    ensures
        r@ == spec_assignment(ports@, count as nat, skip),
{
    let ghost f = without(ports@, skip);
    let mut out: HashMap<usize, u16> = HashMap::new();
    let mut next: usize = 0;
    let mut i: usize = 0;
    while i < ports.len() && next < count
        invariant
            i <= ports@.len(),
            next <= count,
            next as int == without(ports@.take(i as int), skip).len(),
            out@ == spec_assignment(ports@.take(i as int), count as nat, skip),
        decreases ports@.len() - i,
    {
        let p = ports[i];
        proof {
            assert(ports@.take(i + 1).drop_last() =~= ports@.take(i as int));
            assert(ports@.take(i + 1).last() == p);
        }
        if p != skip {
            out.insert(next, p);
            proof {
                let w = without(ports@.take(i as int), skip);
                let w2 = without(ports@.take(i + 1), skip);
                assert(w2 == w.push(p));
                assert(out@ =~= spec_assignment(ports@.take(i + 1), count as nat, skip));
            }
            next = next + 1;
        } else {
            proof {
                assert(out@ =~= spec_assignment(ports@.take(i + 1), count as nat, skip));
            }
        }
        i = i + 1;
    }
    proof {
        if i < ports@.len() {
            // the pool is full: later ports only extend the candidate list
            lemma_without_prefix(ports@, skip, i as int);
            assert(out@ =~= spec_assignment(ports@, count as nat, skip));
        } else {
            assert(ports@.take(i as int) =~= ports@);
        }
    }
    out
}

/// The usable ports of a prefix are a prefix of the usable ports.
pub proof fn lemma_without_prefix(ports: Seq<u16>, skip: u16, i: int)
    requires
        0 <= i <= ports.len(),
    ensures
        without(ports.take(i), skip).len() <= without(ports, skip).len(),
        forall|k: int| 0 <= k < without(ports.take(i), skip).len() ==>
            #[trigger] without(ports.take(i), skip)[k] == without(ports, skip)[k],
    decreases ports.len() - i,
{
    if i < ports.len() {
        lemma_without_prefix(ports, skip, i + 1);
        assert(ports.take(i + 1).drop_last() =~= ports.take(i));
        let a = without(ports.take(i), skip);
        let b = without(ports.take(i + 1), skip);
        assert(a.len() <= b.len());
        assert forall|k: int| 0 <= k < a.len() implies #[trigger] a[k] == without(ports, skip)[k] by {
            assert(a[k] == b[k]);
        }
    } else {
        assert(ports.take(i) =~= ports);
    }
}

/// Pairwise distinct ports stay pairwise distinct, and free of `skip`, once
/// `skip` is left out; every port left is one of the candidates.
proof fn lemma_without_distinct(ports: Seq<u16>, skip: u16)
    requires
        forall|i: int, j: int| 0 <= i < j < ports.len() ==> ports[i] != ports[j],
    ensures
        forall|i: int, j: int|
            0 <= i < j < without(ports, skip).len() ==> without(ports, skip)[i] != without(ports, skip)[j],
        forall|i: int| 0 <= i < without(ports, skip).len() ==> without(ports, skip)[i] != skip,
        forall|i: int| 0 <= i < without(ports, skip).len() ==> ports.contains(#[trigger] without(ports, skip)[i]),
    decreases ports.len(),
{
    if ports.len() > 0 {
        let init = ports.drop_last();
        lemma_without_distinct(init, skip);
        let w = without(init, skip);
        assert forall|i: int| 0 <= i < w.len() implies ports.contains(#[trigger] w[i]) by {
            let k = choose|k: int| 0 <= k < init.len() && init[k] == w[i];
            assert(ports[k] == w[i]);
        }
        if ports.last() != skip {
            assert forall|i: int| 0 <= i < w.len() implies w[i] != ports.last() by {
                let k = choose|k: int| 0 <= k < init.len() && init[k] == w[i];
                assert(ports[k] == init[k]);
                assert(k < ports.len() - 1);
            }
            assert(ports.contains(ports.last())) by {
                assert(ports[ports.len() - 1] == ports.last());
            }
        }
    }
}

/// Pods get distinct ports, none of them the skipped (public) port, each
/// one of the candidates — when the candidates are pairwise distinct, as
/// the backend ports of a proxy spec are.
pub proof fn law_assigned_ports_distinct(ports: Seq<u16>, count: nat, skip: u16)
    requires
        forall|i: int, j: int| 0 <= i < j < ports.len() ==> ports[i] != ports[j],
    ensures
        ({
            let m = spec_assignment(ports, count, skip);
            &&& forall|a: usize, b: usize|
                m.dom().contains(a) && m.dom().contains(b) && a != b ==> #[trigger] m[a] != #[trigger] m[b]
            &&& forall|a: usize| #[trigger] m.dom().contains(a) ==> m[a] != skip && ports.contains(m[a])
        }),
{
    lemma_without_distinct(ports, skip);
    let f = without(ports, skip);
    let m = spec_assignment(ports, count, skip);
    assert forall|a: usize, b: usize|
        m.dom().contains(a) && m.dom().contains(b) && a != b implies #[trigger] m[a] != #[trigger] m[b] by {
        if (a as int) < (b as int) {
            assert(f[a as int] != f[b as int]);
        } else {
            assert(f[b as int] != f[a as int]);
        }
    }
    assert forall|a: usize| #[trigger] m.dom().contains(a) implies m[a] != skip && ports.contains(m[a]) by {
        assert(m[a] == f[a as int]);
    }
}

/// The name pod `id` is known by, on the ring and in its environment:
/// `pod-{id}`.
pub open spec fn pod_name(id: nat) -> Seq<char> {
    "pod-"@ + dec_text(id)
}

/// The name of pod `id`.
pub fn pod_name_text(id: usize) -> (r: String)
    ensures
        r@ == pod_name(id as nat),
{
    let mut s = string_of("pod-");
    push_decimal_text(&mut s, id as u64);
    s
}

/// The ids below `n` that are ready, in ascending order.
pub open spec fn ready_ids(ready: Map<usize, u16>, n: nat) -> Seq<usize>
    decreases n,
{
    if n == 0 {
        Seq::empty()
    } else if ready.contains_key((n - 1) as usize) {
        ready_ids(ready, (n - 1) as nat).push((n - 1) as usize)
    } else {
        ready_ids(ready, (n - 1) as nat)
    }
}

/// The pods of a pool that are ready to take traffic: `slots` pods with ids
/// `0..slots`, each ready one with the backend port it listens on.
pub struct ReadyPods {
    slots: usize,
    ready: HashMap<usize, u16>,
}

impl View for ReadyPods {
    type V = (nat, Map<usize, u16>);

    closed spec fn view(&self) -> (nat, Map<usize, u16>) {
        (self.slots as nat, self.ready@)
    }
}

impl ReadyPods {
    #[verifier::type_invariant]
    closed spec fn inv(&self) -> bool {
        forall|id: usize| #[trigger] self.ready@.contains_key(id) ==> id < self.slots
    }

    /// A pool of `slots` pods, none ready yet.
    pub fn new(slots: usize) -> (r: ReadyPods)
        ensures
            r@ == (slots as nat, Map::<usize, u16>::empty()),
    {
        ReadyPods { slots, ready: HashMap::new() }
    }

    /// How many pods the pool has.
    pub fn slots(&self) -> (r: usize)
        ensures
            r == self@.0,
    {
        self.slots
    }

    /// Pod `id` became ready on `port`.
    pub fn mark_ready(&mut self, id: usize, port: u16)
        requires
            id < old(self)@.0,
        ensures
            final(self)@ == (old(self)@.0, old(self)@.1.insert(id, port)),
    {
        proof {
            use_type_invariant(&*self);
        }
        let mut m: HashMap<usize, u16> = HashMap::new();
        std::mem::swap(&mut m, &mut self.ready);
        m.insert(id, port);
        self.ready = m;
    }

    /// Pod `id` exited or is being restarted: it takes no more traffic.
    pub fn mark_gone(&mut self, id: usize)
        ensures
            final(self)@ == (old(self)@.0, old(self)@.1.remove(id)),
    {
        proof {
            use_type_invariant(&*self);
        }
        let mut m: HashMap<usize, u16> = HashMap::new();
        std::mem::swap(&mut m, &mut self.ready);
        let _ = m.remove(&id);
        self.ready = m;
    }

    /// The proxy's backends: one per ready pod, in ascending id order, each
    /// at the pool host's address (`ip`, `is_v6`) on the pod's port and named
    /// after the pod.
    pub fn backends(&self, ip: u128, is_v6: bool) -> (r: Vec<Backend>)
        ensures
            r@.len() == ready_ids(self@.1, self@.0).len(),
            forall|k: int| 0 <= k < r@.len() ==> {
                let id = #[trigger] ready_ids(self@.1, self@.0)[k];
                &&& r@[k].addr == (BackendAddr { ip, is_v6, port: self@.1[id] })
                &&& r@[k].id@ == pod_name(id as nat)
            },
    {
        let mut out: Vec<Backend> = Vec::new();
        let mut i: usize = 0;
        while i < self.slots
            invariant
                i <= self.slots,
                out@.len() == ready_ids(self.ready@, i as nat).len(),
                forall|k: int| 0 <= k < out@.len() ==> {
                    let id = #[trigger] ready_ids(self.ready@, i as nat)[k];
                    &&& out@[k].addr == (BackendAddr { ip, is_v6, port: self.ready@[id] })
                    &&& out@[k].id@ == pod_name(id as nat)
                },
            decreases self.slots - i,
        {
            let ghost before = out@;
            match self.ready.get(&i) {
                Some(port) => {
                    out.push(Backend { addr: BackendAddr { ip, is_v6, port: *port }, id: pod_name_text(i) });
                    proof {
                        let ids = ready_ids(self.ready@, (i + 1) as nat);
                        assert(ids == ready_ids(self.ready@, i as nat).push(i));
                        assert forall|k: int| 0 <= k < out@.len() implies {
                            let id = #[trigger] ids[k];
                            &&& out@[k].addr == (BackendAddr { ip, is_v6, port: self.ready@[id] })
                            &&& out@[k].id@ == pod_name(id as nat)
                        } by {
                            if k < before.len() {
                                assert(out@[k] == before[k]);
                                assert(ids[k] == ready_ids(self.ready@, i as nat)[k]);
                            }
                        }
                    }
                },
                None => {
                    assert(ready_ids(self.ready@, (i + 1) as nat) == ready_ids(self.ready@, i as nat));
                },
            }
            i = i + 1;
        }
        out
    }
}

} // verus!
