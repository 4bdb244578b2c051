//! Shared state of the sticky reverse proxy: the consistent-hash ring plus a
//! client-IP → backend cache whose entries expire. Time is handed in as
//! milliseconds on the caller's monotonic clock.
use vstd::prelude::*;
use vstd::string::StringSliceAdditionalSpecFns;
use crate::hashing::fnv1a;
use crate::ring::{backend_at, first_live, spec_route_excluding, start_index, sticky_usable, Backend, BackendAddr, Ring, VNODES};
use crate::text::{string_of, text_eq};

verus! {

/// One sticky entry: client IP, the backend it was sent to, and the expiry.
pub type StickyEntry = (String, BackendAddr, u64);

/// No two sticky entries share a client IP.
pub open spec fn unique_clients(s: Seq<StickyEntry>) -> bool {
    forall|i: int, j: int| 0 <= i < j < s.len() ==> (#[trigger] s[i]).0@ != (#[trigger] s[j]).0@
}

/// Entry `i` is the one for client `k`.
pub open spec fn entry_for(s: Seq<StickyEntry>, k: Seq<char>, i: int) -> bool {
    0 <= i < s.len() && s[i].0@ == k
}

/// The sticky entries as a map from client IP to `(backend address, expiry)`.
pub open spec fn sticky_map(s: Seq<StickyEntry>) -> Map<Seq<char>, (BackendAddr, u64)> {
    Map::new(
        |k: Seq<char>| exists|i: int| entry_for(s, k, i),
        |k: Seq<char>| {
            let i = choose|i: int| entry_for(s, k, i);
            (s[i].1, s[i].2)
        },
    )
}

/// The cached mapping for client `k`, if any.
pub open spec fn cached_for(m: Map<Seq<char>, (BackendAddr, u64)>, k: Seq<char>) -> Option<(BackendAddr, u64)> {
    if m.dom().contains(k) {
        Some(m[k])
    } else {
        None
    }
}

/// With unique clients, the map holds exactly what the client's entry holds.
pub proof fn lemma_sticky_entry(s: Seq<StickyEntry>, i: int)
    requires
        unique_clients(s),
        0 <= i < s.len(),
    ensures
        sticky_map(s).dom().contains(s[i].0@),
        sticky_map(s)[s[i].0@] == (s[i].1, s[i].2),
{
    assert(entry_for(s, s[i].0@, i));
    let j = choose|j: int| entry_for(s, s[i].0@, j);
    if i < j {
        assert(s[i].0@ != s[j].0@);
    } else if j < i {
        assert(s[j].0@ != s[i].0@);
    }
}

/// What a pick for `client` (whose key hashes to `h`) at time `now` answers,
/// as `(address, id)`, and the sticky cache after it: the cached mapping when
/// it is usable (with an empty id; the cache unchanged), else the ring's pick
/// skipping `dead`, remembered until `now + ttl`; nothing (the cache
/// unchanged) when every backend is dead or the ring is empty.
pub open spec fn pick_outcome(
    ring: Ring,
    sticky: Map<Seq<char>, (BackendAddr, u64)>,
    client: Seq<char>,
    h: u64,
    now: u64,
    ttl: u64,
    dead: Seq<BackendAddr>,
) -> (Option<(BackendAddr, Seq<char>)>, Map<Seq<char>, (BackendAddr, u64)>) {
    let cached = cached_for(sticky, client);
    if sticky_usable(ring, cached, now, dead) {
        (Some((cached.unwrap().0, Seq::empty())), sticky)
    } else {
        match spec_route_excluding(ring, h, dead) {
            Some(c) => (Some((c.addr, c.id@)), sticky.insert(client, (c.addr, (now + ttl) as u64))),
            None => (None, sticky),
        }
    }
}

/// Proxy state: the ring, the sticky cache, and how long a fresh sticky entry
/// lives (milliseconds).
pub struct ProxyState {
    ring: Ring,
    sticky: Vec<StickyEntry>,
    ttl_ms: u64,
}

impl ProxyState {
    #[verifier::type_invariant]
    closed spec fn inv(&self) -> bool {
        unique_clients(self.sticky@)
    }

    /// The current ring.
    pub closed spec fn spec_ring(&self) -> Ring {
        self.ring
    }

    /// The sticky cache: client IP → (backend address, expiry in ms).
    pub closed spec fn spec_sticky(&self) -> Map<Seq<char>, (BackendAddr, u64)> {
        sticky_map(self.sticky@)
    }

    /// The lifetime of a fresh sticky entry, in milliseconds.
    pub closed spec fn spec_ttl(&self) -> u64 {
        self.ttl_ms
    }

    /// An empty ring and an empty sticky cache.
    pub fn new(ttl_ms: u64) -> (r: ProxyState)
        ensures
            r.spec_ring().spec_backends().len() == 0,
            r.spec_ring().spec_points().len() == 0,
            r.spec_sticky() == Map::<Seq<char>, (BackendAddr, u64)>::empty(),
            r.spec_ttl() == ttl_ms,
            r.spec_ring().well_formed(),
    {
        let r = ProxyState { ring: Ring::default(), sticky: Vec::new(), ttl_ms };
        assert(r.spec_sticky() =~= Map::<Seq<char>, (BackendAddr, u64)>::empty());
        r
    }

    /// Swap in a fresh ring built from `backends`. Sticky entries are kept;
    /// one whose backend left the ring is simply not used any more.
    pub fn set_backends(&mut self, backends: Vec<Backend>)
        requires
            backends@.len() * VNODES <= usize::MAX,
        ensures
            final(self).spec_ring().spec_backends() == backends@,
            final(self).spec_ring().spec_points().to_multiset()
                == crate::ring::gen_points(backends@).to_multiset(),
            crate::ring::sorted_by_hash(final(self).spec_ring().spec_points()),
            final(self).spec_ring().well_formed(),
            final(self).spec_sticky() == old(self).spec_sticky(),
            final(self).spec_ttl() == old(self).spec_ttl(),
    {
        proof {
            use_type_invariant(&*self);
        }
        self.ring = Ring::from_backends(backends);
    }

    /// The lifetime of a fresh sticky entry, in milliseconds.
    pub fn ttl_ms(&self) -> (r: u64)
        ensures
            r == self.spec_ttl(),
    {
        self.ttl_ms
    }

    /// The current ring.
    pub fn snapshot(&self) -> (r: &Ring)
        ensures
            *r == self.spec_ring(),
            r.well_formed(),
    {
        proof {
            use_type_invariant(&self.ring);
        }
        &self.ring
    }

    /// Index of the sticky entry for `client`.
    fn find(&self, client: &str) -> (r: Option<usize>)
        ensures
            match r {
                Some(i) => entry_for(self.sticky@, client@, i as int),
                None => !exists|i: int| entry_for(self.sticky@, client@, i),
            },
    {
        let mut i: usize = 0;
        while i < self.sticky.len()
            invariant
                i <= self.sticky@.len(),
                forall|j: int| 0 <= j < i ==> (#[trigger] self.sticky@[j]).0@ != client@,
            decreases self.sticky@.len() - i,
        {
            if text_eq(self.sticky[i].0.as_str(), client) {
                return Some(i);
            }
            i = i + 1;
        }
        proof {
            if exists|k: int| entry_for(self.sticky@, client@, k) {
                let k = choose|k: int| entry_for(self.sticky@, client@, k);
                assert(self.sticky@[k].0@ != client@);
            }
        }
        None
    }

    /// The sticky mapping of `client`, if any.
    fn lookup(&self, client: &str) -> (r: Option<(BackendAddr, u64)>)
        ensures
            r == cached_for(self.spec_sticky(), client@),
    {
        proof {
            use_type_invariant(self);
        }
        match self.find(client) {
            Some(i) => {
                proof {
                    lemma_sticky_entry(self.sticky@, i as int);
                }
                Some((self.sticky[i].1, self.sticky[i].2))
            },
            None => {
                assert(!self.spec_sticky().dom().contains(client@));
                None
            },
        }
    }

    /// Remember that `client` goes to `addr` until `expiry`.
    fn remember(&mut self, client: &str, addr: BackendAddr, expiry: u64)
        ensures
            final(self).spec_sticky() == old(self).spec_sticky().insert(client@, (addr, expiry)),
            final(self).spec_ring() == old(self).spec_ring(),
            final(self).spec_ttl() == old(self).spec_ttl(),
    {
        proof {
            use_type_invariant(&*self);
        }
        let ghost s = self.sticky@;
        let found = self.find(client);
        let entry: StickyEntry = (string_of(client), addr, expiry);
        let mut v: Vec<StickyEntry> = Vec::new();
        std::mem::swap(&mut v, &mut self.sticky);
        match found {
            Some(k) => {
                v.set(k, entry);
                proof {
                    let ns = v@;
                    assert(ns == s.update(k as int, entry));
                    assert forall|i: int, j: int| 0 <= i < j < ns.len() implies (#[trigger] ns[i]).0@
                        != (#[trigger] ns[j]).0@ by {
                        assert(s[i].0@ != s[j].0@);
                    }
                    assert forall|c: Seq<char>| #[trigger] sticky_map(ns).dom().contains(c)
                        <==> sticky_map(s).insert(client@, (addr, expiry)).dom().contains(c) by {
                        if c != client@ {
                            if exists|i: int| entry_for(s, c, i) {
                                let i = choose|i: int| entry_for(s, c, i);
                                assert(entry_for(ns, c, i));
                            }
                            if exists|i: int| entry_for(ns, c, i) {
                                let i = choose|i: int| entry_for(ns, c, i);
                                assert(entry_for(s, c, i));
                            }
                        } else {
                            assert(entry_for(ns, c, k as int));
                        }
                    }
                    assert forall|c: Seq<char>| #[trigger] sticky_map(ns).dom().contains(c)
                        implies sticky_map(ns)[c] == sticky_map(s).insert(client@, (addr, expiry))[c] by {
                        let i = choose|i: int| entry_for(ns, c, i);
                        lemma_sticky_entry(ns, i);
                        if c != client@ {
                            assert(entry_for(s, c, i));
                            lemma_sticky_entry(s, i);
                        }
                    }
                    assert(sticky_map(ns) =~= sticky_map(s).insert(client@, (addr, expiry)));
                }
            },
            None => {
                v.push(entry);
                proof {
                    let ns = v@;
                    assert(ns == s.push(entry));
                    assert forall|i: int, j: int| 0 <= i < j < ns.len() implies (#[trigger] ns[i]).0@
                        != (#[trigger] ns[j]).0@ by {
                        if j == s.len() {
                            assert(!entry_for(s, client@, i));
                        } else {
                            assert(s[i].0@ != s[j].0@);
                        }
                    }
                    assert forall|c: Seq<char>| #[trigger] sticky_map(ns).dom().contains(c)
                        <==> sticky_map(s).insert(client@, (addr, expiry)).dom().contains(c) by {
                        if c != client@ {
                            if exists|i: int| entry_for(s, c, i) {
                                let i = choose|i: int| entry_for(s, c, i);
                                assert(entry_for(ns, c, i));
                            }
                            if exists|i: int| entry_for(ns, c, i) {
                                let i = choose|i: int| entry_for(ns, c, i);
                                assert(entry_for(s, c, i));
                            }
                        } else {
                            assert(entry_for(ns, c, s.len() as int));
                        }
                    }
                    assert forall|c: Seq<char>| #[trigger] sticky_map(ns).dom().contains(c)
                        implies sticky_map(ns)[c] == sticky_map(s).insert(client@, (addr, expiry))[c] by {
                        let i = choose|i: int| entry_for(ns, c, i);
                        lemma_sticky_entry(ns, i);
                        if c != client@ {
                            assert(entry_for(s, c, i));
                            lemma_sticky_entry(s, i);
                        } else if i < s.len() {
                            assert(entry_for(s, client@, i));
                        }
                    }
                    assert(sticky_map(ns) =~= sticky_map(s).insert(client@, (addr, expiry)));
                }
            },
        }
        self.sticky = v;
    }

    /// Forget the sticky mapping of `client_ip`.
    pub fn invalidate(&mut self, client_ip: &str)
        ensures
            final(self).spec_sticky() == old(self).spec_sticky().remove(client_ip@),
            final(self).spec_ring() == old(self).spec_ring(),
            final(self).spec_ttl() == old(self).spec_ttl(),
            final(self).spec_ring().well_formed(),
    {
        proof {
            use_type_invariant(&*self);
            use_type_invariant(&self.ring);
        }
        let ghost s = self.sticky@;
        match self.find(client_ip) {
            Some(k) => {
                let mut v: Vec<StickyEntry> = Vec::new();
                std::mem::swap(&mut v, &mut self.sticky);
                let _ = v.remove(k);
                proof {
                    let ns = v@;
                    assert(ns == s.remove(k as int));
                    assert forall|i: int, j: int| 0 <= i < j < ns.len() implies (#[trigger] ns[i]).0@
                        != (#[trigger] ns[j]).0@ by {
                        if j < k {
                            assert(s[i].0@ != s[j].0@);
                        } else if i < k {
                            assert(s[i].0@ != s[j + 1].0@);
                        } else {
                            assert(s[i + 1].0@ != s[j + 1].0@);
                        }
                    }
                    assert forall|c: Seq<char>| #[trigger] sticky_map(ns).dom().contains(c)
                        <==> sticky_map(s).remove(client_ip@).dom().contains(c) by {
                        if exists|i: int| entry_for(ns, c, i) {
                            let i = choose|i: int| entry_for(ns, c, i);
                            if i < k {
                                assert(entry_for(s, c, i));
                                assert(s[i].0@ != s[k as int].0@);
                            } else {
                                assert(entry_for(s, c, i + 1));
                                assert(s[k as int].0@ != s[i + 1].0@);
                            }
                        }
                        if c != client_ip@ && exists|i: int| entry_for(s, c, i) {
                            let i = choose|i: int| entry_for(s, c, i);
                            if i < k {
                                assert(entry_for(ns, c, i));
                            } else {
                                assert(i != k);
                                assert(entry_for(ns, c, i - 1));
                            }
                        }
                    }
                    assert forall|c: Seq<char>| #[trigger] sticky_map(ns).dom().contains(c)
                        implies sticky_map(ns)[c] == sticky_map(s).remove(client_ip@)[c] by {
                        let i = choose|i: int| entry_for(ns, c, i);
                        lemma_sticky_entry(ns, i);
                        if i < k {
                            assert(entry_for(s, c, i));
                            lemma_sticky_entry(s, i);
                        } else {
                            assert(entry_for(s, c, i + 1));
                            lemma_sticky_entry(s, i + 1);
                        }
                    }
                    assert(sticky_map(ns) =~= sticky_map(s).remove(client_ip@));
                }
                self.sticky = v;
            },
            None => {
                assert(sticky_map(s) =~= sticky_map(s).remove(client_ip@));
            },
        }
    }

    /// Choose a backend for `client_ip` at time `now_ms`, skipping any in
    /// `dead`: its sticky mapping when that is unexpired, not dead and still
    /// on the ring (answered with an empty id, the cache unchanged); else the
    /// ring's pick, remembered for `ttl` from now. `None` when every backend
    /// is dead or the ring is empty, the cache then unchanged.
    pub fn pick(&mut self, client_ip: &str, now_ms: u64, dead: &[BackendAddr]) -> (r: Option<Backend>)
        requires
            now_ms + old(self).spec_ttl() <= u64::MAX,
        ensures
            final(self).spec_ring() == old(self).spec_ring(),
            final(self).spec_ttl() == old(self).spec_ttl(),
            ({
                let o = pick_outcome(
                    old(self).spec_ring(),
                    old(self).spec_sticky(),
                    client_ip@,
                    fnv1a(client_ip.spec_bytes()),
                    now_ms,
                    old(self).spec_ttl(),
                    dead@,
                );
                &&& r is None <==> o.0 is None
                &&& r matches Some(b) ==> o.0 == Some((b.addr, b.id@))
                &&& final(self).spec_sticky() == o.1
            }),
            r matches Some(b) ==> !dead@.contains(b.addr),
            final(self).spec_ring().well_formed(),
    {
        proof {
            use_type_invariant(&self.ring);
        }
        let cached = self.lookup(client_ip);
        let picked = self.ring.pick_sticky(client_ip, cached, now_ms, self.ttl_ms, dead);
        match picked {
            Some((b, remember)) => {
                match remember {
                    Some(expiry) => {
                        self.remember(client_ip, b.addr, expiry);
                    },
                    None => {},
                }
                Some(b)
            },
            None => None,
        }
    }
}

} // verus!

verus! {

/// A client keeps its backend: once a pick for `client` answers address `a`,
/// a later pick for the same client on the same ring answers `a` again
/// (leaving the cache as it is) as long as the entry the first pick left for
/// the client has not expired and `a` is not found dead.
pub proof fn law_pick_is_sticky(
    ring: Ring,
    sticky: Map<Seq<char>, (BackendAddr, u64)>,
    client: Seq<char>,
    h: u64,
    now: u64,
    ttl: u64,
    dead: Seq<BackendAddr>,
    later: u64,
    dead_later: Seq<BackendAddr>,
)
    requires
        ring.well_formed(),
        pick_outcome(ring, sticky, client, h, now, ttl, dead).0 is Some,
        later < pick_outcome(ring, sticky, client, h, now, ttl, dead).1[client].1,
        !dead_later.contains(pick_outcome(ring, sticky, client, h, now, ttl, dead).0.unwrap().0),
    ensures
        ({
            let first = pick_outcome(ring, sticky, client, h, now, ttl, dead);
            let second = pick_outcome(ring, first.1, client, h, later, ttl, dead_later);
            &&& second.0 == Some((first.0.unwrap().0, Seq::<char>::empty()))
            &&& second.1 == first.1
        }),
{
    let first = pick_outcome(ring, sticky, client, h, now, ttl, dead);
    let cached = cached_for(sticky, client);
    if !sticky_usable(ring, cached, now, dead) {
        let off = choose|off: int| first_live(ring, h, dead, off);
        let p = ring.spec_points();
        let idx = (start_index(p, h) + off) % (p.len() as int);
        assert(0 <= idx < p.len());
        let j = p[idx].1 as int;
        assert(0 <= j < ring.spec_backends().len());
        assert(ring.spec_backends()[j] == backend_at(ring, h, off));
        assert(first.1.dom().contains(client));
        assert(cached_for(first.1, client) == Some(first.1[client]));
    }
}

} // verus!
