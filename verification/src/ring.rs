//! Sticky routing: a consistent-hash ring of virtual nodes over the current
//! backends. The same client key keeps landing on the same backend, and
//! adding a backend only moves keys onto the new backend.
use vstd::prelude::*;
use vstd::string::*;
use vstd::utf8::encode_utf8;
use crate::hashing::{dec_digits, fnv1a, fnv_absorb, fnv_fold, lemma_fnv_fold_concat, push_decimal, FNV_OFFSET};

verus! {

broadcast use vstd::seq_lib::group_to_multiset_ensures;

/// Virtual nodes per backend on the ring.
pub const VNODES: usize = 160;

/// A backend's network address, as the proxy compares them: the IP address
/// bits (an IPv4 address in the low 32 bits), its family and the port.
#[derive(Debug, Clone, Copy, PartialEq, Eq, Structural, Hash)]
pub struct BackendAddr {
    /// Address bits (IPv4 in the low 32 bits).
    pub ip: u128,
    /// Whether the address is IPv6.
    pub is_v6: bool,
    /// TCP port.
    pub port: u16,
}

/// A backend endpoint the proxy can forward to.
#[derive(Debug)]
pub struct Backend {
    /// Where to connect.
    pub addr: BackendAddr,
    /// Stable identifier (hashed onto the ring).
    pub id: String,
}

impl Backend {
    /// A copy of this backend.
    pub fn duplicate(&self) -> (r: Backend)
        ensures
            r.addr == self.addr,
            r.id@ == self.id@,
    {
        Backend { addr: self.addr, id: self.id.clone() }
    }
}

/// The bytes hashed for virtual node `vn` of a backend with id `id`: the
/// UTF-8 text `"{id}/{vn}"`.
pub open spec fn vnode_key(id: Seq<char>, vn: nat) -> Seq<u8> {
    encode_utf8(id) + seq![47u8] + dec_digits(vn)
}

/// Ring position of virtual node `vn` of the backend with id `id`.
pub open spec fn vnode_hash(id: Seq<char>, vn: nat) -> u64 {
    fnv1a(vnode_key(id, vn))
}

/// Point `k` of the ring built from `backends`, before sorting: virtual node
/// `k % VNODES` of backend `k / VNODES`.
pub open spec fn gen_point(backends: Seq<Backend>, k: int) -> (u64, usize) {
    (vnode_hash(backends[k / (VNODES as int)].id@, (k % (VNODES as int)) as nat), (k / (VNODES as int)) as usize)
}

/// All ring points for `backends`, before sorting.
pub open spec fn gen_points(backends: Seq<Backend>) -> Seq<(u64, usize)> {
    Seq::new((backends.len() * VNODES) as nat, |k: int| gen_point(backends, k))
}

/// Points are in ascending order of ring position.
pub open spec fn sorted_by_hash(p: Seq<(u64, usize)>) -> bool {
    forall|i: int, j: int| 0 <= i <= j < p.len() ==> p[i].0 <= p[j].0
}

/// `i` is where hash `h` falls among sorted points: every point before it is
/// below `h`, every point from it on is at or above `h`.
pub open spec fn is_partition(p: Seq<(u64, usize)>, h: u64, i: int) -> bool {
    &&& 0 <= i <= p.len()
    &&& forall|j: int| 0 <= j < i ==> p[j].0 < h
    &&& forall|j: int| i <= j < p.len() ==> p[j].0 >= h
}

/// The index of the first point at or above `h` (the number of points when
/// there is none).
pub open spec fn partition_index(p: Seq<(u64, usize)>, h: u64) -> int {
    choose|i: int| is_partition(p, h, i)
}

/// Where a key's search along the ring starts: the first point at or above
/// the key's hash, wrapping around to the first point.
pub open spec fn start_index(p: Seq<(u64, usize)>, h: u64) -> int {
    if partition_index(p, h) == p.len() {
        0
    } else {
        partition_index(p, h)
    }
}

/// The point `off` steps after the start of a search for hash `h`.
pub open spec fn probe_point(p: Seq<(u64, usize)>, h: u64, off: int) -> (u64, usize) {
    p[(start_index(p, h) + off) % (p.len() as int)]
}

/// A partition index exists (and is unique) for sorted points.
pub proof fn lemma_partition_exists(p: Seq<(u64, usize)>, h: u64, i: int)
    requires
        is_partition(p, h, i),
    ensures
        partition_index(p, h) == i,
{
    let k = partition_index(p, h);
    assert(is_partition(p, h, k));
    if k < i {
        assert(p[k].0 < h);
    } else if i < k {
        assert(p[i].0 < h);
    }
}

/// Backend `i` owns at least one of the points.
pub open spec fn owns_a_point(p: Seq<(u64, usize)>, i: int) -> bool {
    exists|k: int| 0 <= k < p.len() && (#[trigger] p[k]).1 == i
}

/// Consistent-hash ring over the current set of backends.
pub struct Ring {
    points: Vec<(u64, usize)>,
    backends: Vec<Backend>,
}

impl Ring {
    /// The ring's points, sorted by ring position; each names the index of
    /// its backend.
    pub closed spec fn spec_points(&self) -> Seq<(u64, usize)> {
        self.points@
    }

    /// The ring's backends, in the order they were given.
    pub closed spec fn spec_backends(&self) -> Seq<Backend> {
        self.backends@
    }

    /// A well-formed ring: points sorted, each naming a backend, and every
    /// backend owning at least one point.
    pub open spec fn well_formed(&self) -> bool {
        let p = self.spec_points();
        let b = self.spec_backends();
        &&& sorted_by_hash(p)
        &&& b.len() * VNODES <= usize::MAX
        &&& forall|k: int| 0 <= k < p.len() ==> (#[trigger] p[k]).1 < b.len()
        &&& forall|i: int| 0 <= i < b.len() ==> #[trigger] owns_a_point(p, i)
    }

    #[verifier::type_invariant]
    pub(crate) open spec fn inv(&self) -> bool {
        self.well_formed()
    }
}

/// The backend that owns hash `h` on a ring: the one named by the first
/// point at or above `h` (wrapping); `None` on an empty ring.
pub open spec fn spec_route(r: Ring, h: u64) -> Option<Backend> {
    let p = r.spec_points();
    if p.len() == 0 {
        None
    } else {
        Some(r.spec_backends()[probe_point(p, h, 0).1 as int])
    }
}

/// The backend a search for `h` meets `off` steps along the ring.
pub open spec fn backend_at(r: Ring, h: u64, off: int) -> Backend {
    r.spec_backends()[probe_point(r.spec_points(), h, off).1 as int]
}

/// The backend `off` steps along the ring is usable: not in `exclude`.
pub open spec fn is_live(r: Ring, h: u64, exclude: Seq<BackendAddr>, off: int) -> bool {
    !exclude.contains(backend_at(r, h, off).addr)
}

/// `off` is the first usable step of a search for `h`.
pub open spec fn first_live(r: Ring, h: u64, exclude: Seq<BackendAddr>, off: int) -> bool {
    &&& 0 <= off < r.spec_points().len()
    &&& is_live(r, h, exclude, off)
    &&& forall|o: int| 0 <= o < off ==> !is_live(r, h, exclude, o)
}

/// The backend that owns hash `h` once the backends in `exclude` are
/// skipped: walking the ring from the owner's point, the first backend not
/// excluded; `None` when every backend on the ring is excluded.
pub open spec fn spec_route_excluding(r: Ring, h: u64, exclude: Seq<BackendAddr>) -> Option<Backend> {
    if exists|off: int| first_live(r, h, exclude, off) {
        Some(backend_at(r, h, choose|off: int| first_live(r, h, exclude, off)))
    } else {
        None
    }
}

/// The first usable step of a search is unique.
pub proof fn lemma_first_live_unique(r: Ring, h: u64, exclude: Seq<BackendAddr>, a: int, b: int)
    requires
        first_live(r, h, exclude, a),
        first_live(r, h, exclude, b),
    ensures
        a == b,
{
    if a < b {
        assert(!is_live(r, h, exclude, a));
    } else if b < a {
        assert(!is_live(r, h, exclude, b));
    }
}

/// Hash of virtual node `vn` of backend `id`: FNV-1a of `"{id}/{vn}"`.
pub fn vnode_point_hash(id: &String, vn: u64) -> (r: u64)
    ensures
        r == vnode_hash(id@, vn as nat),
{
    let h1 = fnv_absorb(FNV_OFFSET, id.as_str().as_bytes());
    let mut tail: Vec<u8> = Vec::new();
    tail.push(47u8);
    push_decimal(&mut tail, vn);
    let h2 = fnv_absorb(h1, tail.as_slice());
    proof {
        let a = encode_utf8(id@);
        assert(tail@ =~= seq![47u8] + dec_digits(vn as nat));
        lemma_fnv_fold_concat(FNV_OFFSET, a, tail@);
        assert(vnode_key(id@, vn as nat) =~= a + tail@);
    }
    h2
}

/// `slice::sort_unstable_by_key` on the ring position. Claimed, as std
/// documents: the result is a permutation of the input in ascending order of
/// ring position (the order of equal positions is unsaid).
#[verifier::external_body]
fn sort_by_position(points: &mut Vec<(u64, usize)>)
    ensures
        final(points)@.to_multiset() == old(points)@.to_multiset(),
        sorted_by_hash(final(points)@),
{
    points.sort_unstable_by_key(|p| p.0)
}

impl Default for Ring {
    /// The empty ring: no backends, no points.
    fn default() -> (r: Ring)
        ensures
            r.spec_points().len() == 0,
            r.spec_backends().len() == 0,
            r.well_formed(),
    {
        Ring { points: Vec::new(), backends: Vec::new() }
    }
}

impl Ring {
    /// Build the ring for `backends`: `VNODES` virtual nodes per backend,
    /// sorted by ring position.
    pub fn from_backends(backends: Vec<Backend>) -> (r: Ring)
        requires
            backends@.len() * VNODES <= usize::MAX,
        ensures
            r.spec_backends() == backends@,
            r.spec_points().to_multiset() == gen_points(backends@).to_multiset(),
            sorted_by_hash(r.spec_points()),
            r.well_formed(),
    {
        let n = backends.len();
        let mut points: Vec<(u64, usize)> = Vec::new();
        let mut i: usize = 0;
        while i < n
            invariant
                n == backends@.len(),
                n * VNODES <= usize::MAX,
                i <= n,
                points@ =~= gen_points(backends@).take(i * VNODES),
            decreases n - i,
        {
            let mut vn: usize = 0;
            while vn < VNODES
                invariant
                    n == backends@.len(),
                    n * VNODES <= usize::MAX,
                    i < n,
                    vn <= VNODES,
                    points@ =~= gen_points(backends@).take(i * VNODES + vn),
                decreases VNODES - vn,
            {
                let h = vnode_point_hash(&backends[i].id, vn as u64);
                proof {
                    let k = i * VNODES + vn;
                    assert(k < n * VNODES) by (nonlinear_arith)
                        requires
                            i < n,
                            vn < VNODES,
                            k == i * VNODES + vn,
                    ;
                    assert(k / (VNODES as int) == i && k % (VNODES as int) == vn) by (nonlinear_arith)
                        requires
                            vn < VNODES,
                            k == i * VNODES + vn,
                    ;
                    assert(gen_points(backends@).take(k + 1) =~= gen_points(backends@).take(k).push(
                        (h, i),
                    ));
                }
                points.push((h, i));
                vn = vn + 1;
            }
            proof {
                assert((i + 1) * VNODES == i * VNODES + VNODES) by (nonlinear_arith);
            }
            i = i + 1;
        }
        assert(points@ =~= gen_points(backends@)) by {
            assert(n * VNODES == gen_points(backends@).len());
        }
        let ghost unsorted = points@;
        sort_by_position(&mut points);
        proof {
            let p = points@;
            let g = gen_points(backends@);
            assert forall|k: int| 0 <= k < p.len() implies (#[trigger] p[k]).1 < n by {
                assert(p.to_multiset().count(p[k]) > 0);
                assert(g.contains(p[k]));
                let j = choose|j: int| 0 <= j < g.len() && g[j] == p[k];
                assert(j / (VNODES as int) < n) by (nonlinear_arith)
                    requires
                        0 <= j < n * VNODES,
                ;
            }
            assert forall|b: int| 0 <= b < n implies #[trigger] owns_a_point(p, b) by {
                let j = b * (VNODES as int);
                assert(j < n * VNODES && j / (VNODES as int) == b && j % (VNODES as int) == 0) by (nonlinear_arith)
                    requires
                        0 <= b < n,
                        j == b * (VNODES as int),
                ;
                assert(g[j].1 == b);
                assert(g.contains(g[j]));
                assert(p.to_multiset().count(g[j]) > 0);
                assert(p.contains(g[j]));
            }
        }
        Ring { points, backends }
    }

    /// The backends on the ring, in the order they were given.
    pub fn backends(&self) -> (r: &Vec<Backend>)
        ensures
            r@ == self.spec_backends(),
            self.well_formed(),
    {
        proof {
            use_type_invariant(self);
        }
        &self.backends
    }

    /// Index of the first point at or above `h`, by binary search.
    fn partition(&self, h: u64) -> (r: usize)
        ensures
            r == partition_index(self.spec_points(), h),
            is_partition(self.spec_points(), h, r as int),
    {
        proof {
            use_type_invariant(self);
        }
        let mut lo: usize = 0;
        let mut hi: usize = self.points.len();
        while lo < hi
            invariant
                lo <= hi <= self.points@.len(),
                sorted_by_hash(self.points@),
                forall|j: int| 0 <= j < lo ==> self.points@[j].0 < h,
                forall|j: int| hi <= j < self.points@.len() ==> self.points@[j].0 >= h,
            decreases hi - lo,
        {
            let mid = lo + (hi - lo) / 2;
            if self.points[mid].0 < h {
                lo = mid + 1;
            } else {
                hi = mid;
            }
        }
        proof {
            lemma_partition_exists(self.points@, h, lo as int);
        }
        lo
    }

    /// Whether no two virtual nodes sit at the same ring position (the
    /// condition under which adding a backend provably moves keys only to
    /// it).
    pub fn has_distinct_positions(&self) -> (r: bool)
        ensures
            r == distinct_positions(self.spec_points()),
    {
        proof {
            use_type_invariant(self);
        }
        let n = self.points.len();
        if n == 0 {
            return true;
        }
        let mut i: usize = 1;
        while i < n
            invariant
                n == self.points@.len(),
                1 <= i <= n,
                sorted_by_hash(self.points@),
                forall|a: int, b: int| 0 <= a < b < i ==> (#[trigger] self.points@[a]).0 < (#[trigger] self.points@[b]).0,
            decreases n - i,
        {
            if self.points[i - 1].0 == self.points[i].0 {
                proof {
                    let p = self.points@;
                    assert(p[i - 1] == p[i - 1] && p[i as int] == p[i as int]);
                    assert(!distinct_positions(p)) by {
                        assert((p[i - 1]).0 == (p[i as int]).0);
                    }
                }
                return false;
            }
            proof {
                let p = self.points@;
                assert forall|a: int, b: int| 0 <= a < b < i + 1 implies (#[trigger] p[a]).0 < (#[trigger] p[b]).0 by {
                    if b == i {
                        assert(p[a].0 <= p[i - 1].0);
                        assert(p[i - 1].0 <= p[b].0);
                    }
                }
            }
            i = i + 1;
        }
        proof {
            let p = self.points@;
            assert forall|a: int, b: int| 0 <= a < b < p.len() implies (#[trigger] p[a]).0 != (#[trigger] p[b]).0 by {
                assert(p[a].0 < p[b].0);
            }
        }
        true
    }

    /// Pick the backend owning `key` (first point at or above hash(key),
    /// wrapping); `None` on an empty ring.
    pub fn route(&self, key: &str) -> (r: Option<&Backend>)
        ensures
            match r {
                Some(b) => spec_route(*self, fnv1a(key.spec_bytes())) == Some(*b),
                None => spec_route(*self, fnv1a(key.spec_bytes())) is None,
            },
            self.well_formed(),
    {
        proof {
            use_type_invariant(self);
        }
        if self.points.len() == 0 {
            return None;
        }
        let h = crate::hashing::hash64(key);
        let mut idx = self.partition(h);
        if idx == self.points.len() {
            idx = 0;
        }
        let i = self.points[idx].1;
        proof {
            assert(self.points@[idx as int].1 < self.backends@.len());
            assert(idx as int == start_index(self.points@, h));
            assert((idx as int + 0) % (self.points@.len() as int) == idx as int) by (nonlinear_arith)
                requires
                    0 <= idx < self.points@.len(),
            ;
            assert(probe_point(self.points@, h, 0) == self.points@[idx as int]);
        }
        Some(&self.backends[i])
    }

    /// Pick a backend for `key`, skipping any whose address is in `exclude`:
    /// walk the ring from the key's owner to the first backend not excluded.
    pub fn route_excluding(&self, key: &str, exclude: &[BackendAddr]) -> (r: Option<&Backend>)
        ensures
            match r {
                Some(b) => spec_route_excluding(*self, fnv1a(key.spec_bytes()), exclude@) == Some(*b),
                None => spec_route_excluding(*self, fnv1a(key.spec_bytes()), exclude@) is None,
            },
            self.well_formed(),
    {
        proof {
            use_type_invariant(self);
        }
        let ghost h = fnv1a(key.spec_bytes());
        let n = self.points.len();
        if n == 0 {
            return None;
        }
        let hh = crate::hashing::hash64(key);
        let mut start = self.partition(hh);
        if start == n {
            start = 0;
        }
        assert(start == start_index(self.points@, h));
        let mut off: usize = 0;
        while off < n
            invariant
                n == self.points@.len(),
                n > 0,
                start == start_index(self.points@, h),
                h == fnv1a(key.spec_bytes()),
                start < n,
                off <= n,
                self.well_formed(),
                forall|o: int| 0 <= o < off ==> !is_live(*self, h, exclude@, o),
            decreases n - off,
        {
            let idx = if off < n - start { start + off } else { off - (n - start) };
            assert(idx as int == (start + off) % (n as int)) by (nonlinear_arith)
                requires
                    start < n,
                    off < n,
                    idx == if off < n - start { start + off } else { off - (n - start) },
            ;
            let i = self.points[idx].1;
            assert(i < self.backends@.len());
            let addr = self.backends[i].addr;
            let mut excluded = false;
            let mut e: usize = 0;
            while e < exclude.len()
                invariant
                    e <= exclude@.len(),
                    excluded == exists|q: int| 0 <= q < e && exclude@[q] == addr,
                decreases exclude@.len() - e,
            {
                if exclude[e] == addr {
                    excluded = true;
                }
                e = e + 1;
            }
            assert(backend_at(*self, h, off as int) == self.backends@[i as int]);
            if !excluded {
                assert(first_live(*self, h, exclude@, off as int));
                proof {
                    let c = choose|o: int| first_live(*self, h, exclude@, o);
                    lemma_first_live_unique(*self, h, exclude@, c, off as int);
                    assert(spec_route_excluding(*self, h, exclude@) == Some(backend_at(*self, h, off as int)));
                }
                let b = &self.backends[i];
                assert(*b == backend_at(*self, h, off as int));
                return Some(b);
            }
            assert(!is_live(*self, h, exclude@, off as int)) by {
                let q = choose|q: int| 0 <= q < exclude@.len() && exclude@[q] == addr;
                assert(exclude@.contains(addr));
            }
            off = off + 1;
        }
        None
    }
}

/// A usable step at `off` means some step at or before it is the first
/// usable one.
pub proof fn lemma_first_live_exists(r: Ring, h: u64, exclude: Seq<BackendAddr>, off: int)
    requires
        0 <= off < r.spec_points().len(),
        is_live(r, h, exclude, off),
    ensures
        exists|o: int| first_live(r, h, exclude, o) && o <= off,
    decreases off,
{
    if exists|o: int| 0 <= o < off && is_live(r, h, exclude, o) {
        let o = choose|o: int| 0 <= o < off && is_live(r, h, exclude, o);
        lemma_first_live_exists(r, h, exclude, o);
    } else {
        assert(first_live(r, h, exclude, off));
    }
}

/// A ring search never lands on an excluded backend.
pub proof fn law_route_excluding_skips_excluded(r: Ring, h: u64, exclude: Seq<BackendAddr>)
    ensures
        spec_route_excluding(r, h, exclude) matches Some(b) ==> !exclude.contains(b.addr),
{
    if exists|off: int| first_live(r, h, exclude, off) {
        let off = choose|off: int| first_live(r, h, exclude, off);
        assert(is_live(r, h, exclude, off));
    }
}

/// On a well-formed ring a search fails only when every backend is
/// excluded: if any backend on the ring is not excluded, some backend is
/// returned.
pub proof fn law_route_excluding_finds_live(r: Ring, h: u64, exclude: Seq<BackendAddr>, i: int)
    requires
        r.well_formed(),
        0 <= i < r.spec_backends().len(),
        !exclude.contains(r.spec_backends()[i].addr),
    ensures
        spec_route_excluding(r, h, exclude) is Some,
{
    let p = r.spec_points();
    let n = p.len() as int;
    assert(owns_a_point(p, i));
    let k = choose|k: int| 0 <= k < p.len() && (#[trigger] p[k]).1 == i;
    let st = start_index(p, h);
    let pi = partition_index(p, h);
    assert(is_partition(p, h, pi)) by {
        lemma_partition_index_is_partition(p, h);
    }
    assert(0 <= st < n);
    let off = if k >= st { k - st } else { k + n - st };
    assert((st + off) % n == k) by (nonlinear_arith)
        requires
            0 <= st < n,
            0 <= k < n,
            off == if k >= st { k - st } else { k + n - st },
    ;
    assert(probe_point(p, h, off) == p[k]);
    assert(is_live(r, h, exclude, off));
    lemma_first_live_exists(r, h, exclude, off);
}

/// Sorted points always have a partition index for any hash.
pub proof fn lemma_partition_index_is_partition(p: Seq<(u64, usize)>, h: u64)
    requires
        sorted_by_hash(p),
    ensures
        is_partition(p, h, partition_index(p, h)),
{
    let i = lemma_partition_witness(p, h, 0);
    lemma_partition_exists(p, h, i);
}

/// Scan sorted points from `lo` for the first one at or above `h`.
proof fn lemma_partition_witness(p: Seq<(u64, usize)>, h: u64, lo: int) -> (i: int)
    requires
        sorted_by_hash(p),
        0 <= lo <= p.len(),
        forall|j: int| 0 <= j < lo ==> p[j].0 < h,
    ensures
        is_partition(p, h, i),
    decreases p.len() - lo,
{
    if lo == p.len() || p[lo].0 >= h {
        lo
    } else {
        lemma_partition_witness(p, h, lo + 1)
    }
}

/// Excluding backends other than a key's owner never moves the key: when
/// the owner is not excluded the search returns the owner itself, and with
/// nothing excluded the search is plain routing.
pub proof fn law_route_excluding_keeps_owner(r: Ring, h: u64, exclude: Seq<BackendAddr>)
    requires
        r.well_formed(),
    ensures
        spec_route(r, h) matches Some(b) ==> (!exclude.contains(b.addr) ==> spec_route_excluding(r, h, exclude) == Some(b)),
        spec_route_excluding(r, h, Seq::<BackendAddr>::empty()) == spec_route(r, h),
{
    let p = r.spec_points();
    if p.len() > 0 {
        assert(backend_at(r, h, 0) == r.spec_backends()[probe_point(p, h, 0).1 as int]);
        if !exclude.contains(backend_at(r, h, 0).addr) {
            assert(first_live(r, h, exclude, 0));
            let c = choose|o: int| first_live(r, h, exclude, o);
            lemma_first_live_unique(r, h, exclude, c, 0);
        }
        let e = Seq::<BackendAddr>::empty();
        assert(!e.contains(backend_at(r, h, 0).addr));
        assert(first_live(r, h, e, 0));
        let c = choose|o: int| first_live(r, h, e, o);
        lemma_first_live_unique(r, h, e, c, 0);
    } else {
        if exists|off: int| first_live(r, h, Seq::<BackendAddr>::empty(), off) {
            let off = choose|off: int| first_live(r, h, Seq::<BackendAddr>::empty(), off);
            assert(false);
        }
    }
}

/// A sticky mapping `(addr, expiry)` is still usable at `now`: not expired,
/// not known dead, and its backend is still on the ring.
pub open spec fn sticky_usable(r: Ring, cached: Option<(BackendAddr, u64)>, now: u64, dead: Seq<BackendAddr>) -> bool {
    match cached {
        Some((a, exp)) => exp > now && !dead.contains(a) && exists|i: int|
            0 <= i < r.spec_backends().len() && (#[trigger] r.spec_backends()[i]).addr == a,
        None => false,
    }
}

impl Ring {
    /// Whether some backend on the ring has address `a`.
    fn has_addr(&self, a: BackendAddr) -> (r: bool)
        ensures
            r == exists|i: int| 0 <= i < self.spec_backends().len() && (#[trigger] self.spec_backends()[i]).addr == a,
    {
        let mut i: usize = 0;
        while i < self.backends.len()
            invariant
                i <= self.backends@.len(),
                forall|j: int| 0 <= j < i ==> (#[trigger] self.backends@[j]).addr != a,
            decreases self.backends@.len() - i,
        {
            if self.backends[i].addr == a {
                assert(self.spec_backends()[i as int].addr == a);
                return true;
            }
            i = i + 1;
        }
        false
    }

    /// Choose a backend for `client_ip` at time `now_ms`, preferring its
    /// sticky mapping `cached` and skipping any backend in `dead`.
    ///
    /// A usable sticky mapping answers with its address (and an empty id)
    /// and nothing new to remember. Otherwise the ring picks (skipping the
    /// dead), and the pick is to be remembered until `now_ms + ttl_ms`.
    /// `None` when every backend is dead or the ring is empty. Never a dead
    /// backend.
    pub fn pick_sticky(
        &self,
        client_ip: &str,
        cached: Option<(BackendAddr, u64)>,
        now_ms: u64,
        ttl_ms: u64,
        dead: &[BackendAddr],
    ) -> (r: Option<(Backend, Option<u64>)>)
        requires
            now_ms + ttl_ms <= u64::MAX,
        ensures
            sticky_usable(*self, cached, now_ms, dead@) ==> (r matches Some((b, rem)) && rem is None
                && b.addr == cached.unwrap().0 && b.id@ == Seq::<char>::empty()),
            !sticky_usable(*self, cached, now_ms, dead@) ==> match spec_route_excluding(*self, fnv1a(client_ip.spec_bytes()), dead@) {
                Some(c) => (r matches Some((b, rem)) && b.addr == c.addr && b.id@ == c.id@ && rem == Some((now_ms + ttl_ms) as u64)),
                None => r is None,
            },
            r matches Some((b, _)) ==> !dead@.contains(b.addr),
    {
        proof {
            use_type_invariant(self);
        }
        if let Some((addr, exp)) = cached {
            let mut is_dead = false;
            let mut e: usize = 0;
            while e < dead.len()
                invariant
                    e <= dead@.len(),
                    is_dead == exists|q: int| 0 <= q < e && dead@[q] == addr,
                decreases dead@.len() - e,
            {
                if dead[e] == addr {
                    is_dead = true;
                }
                e = e + 1;
            }
            proof {
                if dead@.contains(addr) {
                    let q = choose|q: int| 0 <= q < dead@.len() && dead@[q] == addr;
                    assert(is_dead);
                }
            }
            if exp > now_ms && !is_dead && self.has_addr(addr) {
                return Some((Backend { addr, id: String::new() }, None));
            }
        }
        match self.route_excluding(client_ip, dead) {
            Some(chosen) => {
                proof {
                    law_route_excluding_skips_excluded(*self, fnv1a(client_ip.spec_bytes()), dead@);
                }
                Some((chosen.duplicate(), Some(now_ms + ttl_ms)))
            },
            None => None,
        }
    }
}

/// No two points share a ring position.
pub open spec fn distinct_positions(p: Seq<(u64, usize)>) -> bool {
    forall|i: int, j: int| 0 <= i < j < p.len() ==> (#[trigger] p[i]).0 != (#[trigger] p[j]).0
}

/// Some point is at or above `h`.
pub open spec fn has_point_at_or_above(p: Seq<(u64, usize)>, h: u64) -> bool {
    exists|k: int| 0 <= k < p.len() && (#[trigger] p[k]).0 >= h
}

/// `x` is the owner point of `h` among `p`: the lowest point at or above
/// `h`, or the lowest point of all when there is none.
pub open spec fn is_owner_point(p: Seq<(u64, usize)>, h: u64, x: (u64, usize)) -> bool {
    &&& p.contains(x)
    &&& has_point_at_or_above(p, h) ==> x.0 >= h && forall|k: int| 0 <= k < p.len() && (#[trigger] p[k]).0 >= h ==> x.0 <= p[k].0
    &&& !has_point_at_or_above(p, h) ==> forall|k: int| 0 <= k < p.len() ==> x.0 <= (#[trigger] p[k]).0
}

/// On sorted points the search for `h` starts at its owner point.
pub proof fn lemma_probe_is_owner(p: Seq<(u64, usize)>, h: u64)
    requires
        sorted_by_hash(p),
        p.len() > 0,
    ensures
        is_owner_point(p, h, probe_point(p, h, 0)),
{
    lemma_partition_index_is_partition(p, h);
    let pi = partition_index(p, h);
    let st = start_index(p, h);
    assert((st + 0) % (p.len() as int) == st) by (nonlinear_arith)
        requires
            0 <= st < p.len(),
    ;
    let x = probe_point(p, h, 0);
    assert(x == p[st]);
    assert(p.contains(x));
    if has_point_at_or_above(p, h) {
        let k = choose|k: int| 0 <= k < p.len() && (#[trigger] p[k]).0 >= h;
        assert(pi < p.len());
    } else {
        if pi < p.len() {
            assert(p[pi].0 >= h);
        }
    }
}

/// A point of a ring over `s.push(c)` is a point of the ring over `s`, or
/// one of `c`'s points.
proof fn lemma_gen_points_push(s: Seq<Backend>, c: Backend, x: (u64, usize))
    requires
        gen_points(s.push(c)).contains(x),
        s.len() < usize::MAX,
    ensures
        gen_points(s).contains(x) || x.1 == s.len(),
{
    let big = s.push(c);
    let g = gen_points(big);
    let k = choose|k: int| 0 <= k < g.len() && g[k] == x;
    let n = s.len() as int;
    let v = VNODES as int;
    assert(k < (n + 1) * v);
    if k < n * v {
        assert(k / v < n) by (nonlinear_arith)
            requires
                0 <= k < n * v,
                v == 160,
        ;
        assert(big[k / v] == s[k / v]);
        assert(gen_points(s).len() == n * v);
        assert(gen_points(s)[k] == x);
        assert(gen_points(s).contains(x));
    } else {
        assert(k / v == n) by (nonlinear_arith)
            requires
                n * v <= k < (n + 1) * v,
                v == 160,
        ;
        assert(x == gen_point(big, k));
        assert(x.1 == (k / v) as usize);
    }
}

/// A point of the ring over `s` is a point of the ring over `s.push(c)`.
proof fn lemma_gen_points_grow(s: Seq<Backend>, c: Backend, x: (u64, usize))
    requires
        gen_points(s).contains(x),
    ensures
        gen_points(s.push(c)).contains(x),
{
    let big = s.push(c);
    let g = gen_points(s);
    let k = choose|k: int| 0 <= k < g.len() && g[k] == x;
    let n = s.len() as int;
    let v = VNODES as int;
    assert(k / v < n) by (nonlinear_arith)
        requires
            0 <= k < n * v,
            v == 160,
    ;
    assert(k < (n + 1) * v) by (nonlinear_arith)
        requires
            0 <= k < n * v,
            v == 160,
    ;
    assert(big[k / v] == s[k / v]);
    assert(gen_points(big)[k] == x);
}

/// Consistent hashing moves few keys: on rings built from a list of
/// backends and from the same list with one backend `c` added (and no two
/// virtual nodes at the same ring position), every key either keeps its
/// backend or moves to `c`.
pub proof fn law_adding_backend_moves_keys_only_to_it(small: Ring, big: Ring, c: Backend, h: u64)
    requires
        small.well_formed(),
        big.well_formed(),
        big.spec_backends() == small.spec_backends().push(c),
        small.spec_points().to_multiset() == gen_points(small.spec_backends()).to_multiset(),
        big.spec_points().to_multiset() == gen_points(big.spec_backends()).to_multiset(),
        distinct_positions(big.spec_points()),
    ensures
        spec_route(big, h) == spec_route(small, h) || spec_route(big, h) == Some(c),
{
    let ps = small.spec_points();
    let pb = big.spec_points();
    let s = small.spec_backends();
    let n = s.len() as int;
    assert(big.spec_backends().len() == n + 1);
    assert(owns_a_point(pb, n));
    let k0 = choose|k: int| 0 <= k < pb.len() && (#[trigger] pb[k]).1 == n;
    assert(pb.len() > 0);
    lemma_probe_is_owner(pb, h);
    let xb = probe_point(pb, h, 0);
    if xb.1 as int == n {
        assert(spec_route(big, h) == Some(c));
    } else {
        // xb is also a point of the smaller ring
        assert(pb.to_multiset().count(xb) > 0);
        assert(gen_points(big.spec_backends()).contains(xb));
        lemma_gen_points_push(s, c, xb);
        assert(gen_points(s).contains(xb));
        assert(ps.to_multiset().count(xb) > 0);
        assert(ps.contains(xb));
        assert(ps.len() > 0);
        lemma_probe_is_owner(ps, h);
        let xs = probe_point(ps, h, 0);
        // xs is also a point of the bigger ring
        assert(ps.to_multiset().count(xs) > 0);
        assert(gen_points(s).contains(xs));
        lemma_gen_points_grow(s, c, xs);
        assert(pb.to_multiset().count(xs) > 0);
        assert(pb.contains(xs));
        let ib = choose|i: int| 0 <= i < ps.len() && ps[i] == xb;
        let is = choose|i: int| 0 <= i < pb.len() && pb[i] == xs;
        if has_point_at_or_above(pb, h) {
            assert(xb.0 >= h);
            assert(has_point_at_or_above(ps, h)) by {
                assert(ps[ib].0 >= h);
            }
            assert(xs.0 <= ps[ib].0);
            assert(xb.0 <= pb[is].0);
        } else {
            assert(!has_point_at_or_above(ps, h)) by {
                if has_point_at_or_above(ps, h) {
                    let k = choose|k: int| 0 <= k < ps.len() && (#[trigger] ps[k]).0 >= h;
                    assert(ps.to_multiset().count(ps[k]) > 0);
                    assert(gen_points(s).contains(ps[k]));
                    lemma_gen_points_grow(s, c, ps[k]);
                    assert(pb.to_multiset().count(ps[k]) > 0);
                    let j = choose|j: int| 0 <= j < pb.len() && pb[j] == ps[k];
                    assert(pb[j].0 >= h);
                }
            }
            assert(xs.0 <= ps[ib].0);
            assert(xb.0 <= pb[is].0);
        }
        // equal positions in the bigger ring: the same point
        let jb = choose|i: int| 0 <= i < pb.len() && pb[i] == xb;
        if jb < is {
            assert(pb[jb].0 != pb[is].0);
        } else if is < jb {
            assert(pb[is].0 != pb[jb].0);
        }
        assert(xb == xs);
        assert(xb.1 < n) by {
            assert(small.well_formed());
            assert(ps[ib].1 < n);
        }
        assert(big.spec_backends()[xb.1 as int] == s[xb.1 as int]);
    }
}

} // verus!
