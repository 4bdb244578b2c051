//! In-memory instance registry — the zero-dependency default backend.
//! Entries are keyed by `(group, instance_id)`; at most one entry per key.
use vstd::prelude::*;
use crate::text::string_of;
use crate::traits::{InstanceRegistry, RegistryError};
use crate::types::{InstanceInfo, InstanceRole};

verus! {

impl InstanceInfo {
    /// A copy of this entry.
    pub fn duplicate(&self) -> (r: InstanceInfo)
        ensures
            r == *self,
    {
        InstanceInfo {
            instance_id: self.instance_id.clone(),
            group: self.group.clone(),
            role: self.role,
            generation: self.generation,
            started_at: self.started_at.clone(),
            endpoint: match &self.endpoint {
                Some(e) => Some(e.clone()),
                None => None,
            },
            backend: match &self.backend {
                Some(b) => Some(b.clone()),
                None => None,
            },
        }
    }
}

/// Entry `e` has registry key `(group, id)`.
pub open spec fn has_key(e: InstanceInfo, group: Seq<char>, id: Seq<char>) -> bool {
    e.group@ == group && e.instance_id@ == id
}

/// At most one entry per `(group, instance_id)` key.
pub open spec fn unique_keys(es: Seq<InstanceInfo>) -> bool {
    forall|i: int, j: int|
        0 <= i < j < es.len() ==> !has_key(#[trigger] es[i], es[j].group@, (#[trigger] es[j]).instance_id@)
}

/// `k` is the first entry with key `(group, id)`.
pub open spec fn first_with_key(es: Seq<InstanceInfo>, group: Seq<char>, id: Seq<char>, k: int) -> bool {
    0 <= k < es.len() && has_key(es[k], group, id) && forall|j: int| 0 <= j < k ==> !has_key(#[trigger] es[j], group, id)
}

/// `k` is the first entry with instance id `id` (in any group).
pub open spec fn first_with_id(es: Seq<InstanceInfo>, id: Seq<char>, k: int) -> bool {
    0 <= k < es.len() && es[k].instance_id@ == id && forall|j: int| 0 <= j < k ==> (#[trigger] es[j]).instance_id@ != id
}

/// Entries after registering `info`: it replaces the entry with the same
/// key, or is appended when there is none.
pub open spec fn spec_register(es: Seq<InstanceInfo>, info: InstanceInfo) -> Seq<InstanceInfo> {
    if exists|k: int| first_with_key(es, info.group@, info.instance_id@, k) {
        es.update(choose|k: int| first_with_key(es, info.group@, info.instance_id@, k), info)
    } else {
        es.push(info)
    }
}

/// Entries after setting the role of the first entry with id `id`; `None`
/// when no entry has that id.
pub open spec fn spec_set_role(es: Seq<InstanceInfo>, id: Seq<char>, role: InstanceRole) -> Option<Seq<InstanceInfo>> {
    if exists|k: int| first_with_id(es, id, k) {
        let k = choose|k: int| first_with_id(es, id, k);
        Some(es.update(k, InstanceInfo { role, ..es[k] }))
    } else {
        None
    }
}

/// Entries after removing the first entry with id `id`; `None` when no
/// entry has that id.
pub open spec fn spec_deregister(es: Seq<InstanceInfo>, id: Seq<char>) -> Option<Seq<InstanceInfo>> {
    if exists|k: int| first_with_id(es, id, k) {
        Some(es.remove(choose|k: int| first_with_id(es, id, k)))
    } else {
        None
    }
}

/// The entries of `group`, in registration order.
pub open spec fn members(es: Seq<InstanceInfo>, group: Seq<char>) -> Seq<InstanceInfo>
    decreases es.len(),
{
    if es.len() == 0 {
        Seq::empty()
    } else if es.last().group@ == group {
        members(es.drop_last(), group).push(es.last())
    } else {
        members(es.drop_last(), group)
    }
}

/// A simple in-memory registry keyed by `(group, instance_id)`.
pub struct InMemoryRegistry {
    entries: Vec<InstanceInfo>,
}

impl View for InMemoryRegistry {
    type V = Seq<InstanceInfo>;

    closed spec fn view(&self) -> Seq<InstanceInfo> {
        self.entries@
    }
}

impl Default for InMemoryRegistry {
    /// An empty registry.
    fn default() -> (r: InMemoryRegistry)
        ensures
            r@ == Seq::<InstanceInfo>::empty(),
            unique_keys(r@),
    {
        InMemoryRegistry::new()
    }
}

impl InMemoryRegistry {
    #[verifier::type_invariant]
    closed spec fn inv(&self) -> bool {
        unique_keys(self.entries@)
    }

    /// An empty registry.
    pub fn new() -> (r: InMemoryRegistry)
        ensures
            r@ == Seq::<InstanceInfo>::empty(),
            unique_keys(r@),
    {
        InMemoryRegistry { entries: Vec::new() }
    }

    /// Index of the first entry with key `(group, id)`.
    fn find_key(&self, group: &String, id: &String) -> (r: Option<usize>)
        ensures
            match r {
                Some(k) => first_with_key(self@, group@, id@, k as int),
                None => !exists|k: int| first_with_key(self@, group@, id@, k),
            },
    {
        let mut i: usize = 0;
        while i < self.entries.len()
            invariant
                i <= self.entries@.len(),
                forall|j: int| 0 <= j < i ==> !has_key(#[trigger] self.entries@[j], group@, id@),
            decreases self.entries@.len() - i,
        {
            if self.entries[i].group == *group && self.entries[i].instance_id == *id {
                return Some(i);
            }
            i = i + 1;
        }
        proof {
            if exists|k: int| first_with_key(self@, group@, id@, k) {
                let k = choose|k: int| first_with_key(self@, group@, id@, k);
                assert(!has_key(self.entries@[k], group@, id@));
            }
        }
        None
    }

    /// Index of the first entry with instance id `id`.
    fn find_id(&self, id: &String) -> (r: Option<usize>)
        ensures
            match r {
                Some(k) => first_with_id(self@, id@, k as int),
                None => !exists|k: int| first_with_id(self@, id@, k),
            },
    {
        let mut i: usize = 0;
        while i < self.entries.len()
            invariant
                i <= self.entries@.len(),
                forall|j: int| 0 <= j < i ==> (#[trigger] self.entries@[j]).instance_id@ != id@,
            decreases self.entries@.len() - i,
        {
            if self.entries[i].instance_id == *id {
                return Some(i);
            }
            i = i + 1;
        }
        proof {
            if exists|k: int| first_with_id(self@, id@, k) {
                let k = choose|k: int| first_with_id(self@, id@, k);
                assert(self.entries@[k].instance_id@ != id@);
            }
        }
        None
    }
}

/// The first entry with a key is unique.
pub proof fn lemma_first_with_key_unique(es: Seq<InstanceInfo>, g: Seq<char>, id: Seq<char>, a: int, b: int)
    requires
        first_with_key(es, g, id, a),
        first_with_key(es, g, id, b),
    ensures
        a == b,
{
    if a < b {
        assert(!has_key(es[a], g, id));
    } else if b < a {
        assert(!has_key(es[b], g, id));
    }
}

/// The first entry with an id is unique.
pub proof fn lemma_first_with_id_unique(es: Seq<InstanceInfo>, id: Seq<char>, a: int, b: int)
    requires
        first_with_id(es, id, a),
        first_with_id(es, id, b),
    ensures
        a == b,
{
    if a < b {
        assert(es[a].instance_id@ != id);
    } else if b < a {
        assert(es[b].instance_id@ != id);
    }
}

impl InstanceRegistry for InMemoryRegistry {
    /// Insert `info`, replacing the entry with the same `(group, id)` key.
    fn register(&mut self, info: InstanceInfo) -> (r: Result<(), RegistryError>)
        ensures
            r is Ok,
            final(self)@ == spec_register(old(self)@, info),
            unique_keys(final(self)@),
    {
        proof {
            use_type_invariant(&*self);
        }
        let ghost es = self.entries@;
        let found = self.find_key(&info.group, &info.instance_id);
        assert(found is None ==> !exists|k: int| first_with_key(self@, info.group@, info.instance_id@, k));
        assert(self@ == es);
        match found {
            Some(k) => {
                proof {
                    let c = choose|c: int| first_with_key(es, info.group@, info.instance_id@, c);
                    lemma_first_with_key_unique(es, info.group@, info.instance_id@, c, k as int);
                    let ns = es.update(k as int, info);
                    assert forall|i: int, j: int| 0 <= i < j < ns.len() implies !has_key(
                        #[trigger] ns[i],
                        ns[j].group@,
                        (#[trigger] ns[j]).instance_id@,
                    ) by {
                        if i == k {
                            assert(!has_key(es[i], es[j].group@, es[j].instance_id@));
                        } else if j == k {
                            assert(!has_key(es[i], es[j].group@, es[j].instance_id@));
                        }
                    }
                }
                let mut v: Vec<InstanceInfo> = Vec::new();
                std::mem::swap(&mut v, &mut self.entries);
                v.set(k, info);
                self.entries = v;
            },
            None => {
                assert(!exists|k: int| first_with_key(es, info.group@, info.instance_id@, k));
                proof {
                    let ns = es.push(info);
                    assert forall|i: int, j: int| 0 <= i < j < ns.len() implies !has_key(
                        #[trigger] ns[i],
                        ns[j].group@,
                        (#[trigger] ns[j]).instance_id@,
                    ) by {
                        assert(ns[i] == es[i]);
                        if j == es.len() {
                            assert(ns[j] == info);
                            if has_key(es[i], info.group@, info.instance_id@) {
                                lemma_first_key_exists(es, info.group@, info.instance_id@, i);
                                assert(false);
                            }
                        } else {
                            assert(ns[j] == es[j]);
                            assert(!has_key(es[i], es[j].group@, es[j].instance_id@));
                        }
                    }
                }
                let mut v: Vec<InstanceInfo> = Vec::new();
                std::mem::swap(&mut v, &mut self.entries);
                v.push(info);
                self.entries = v;
            },
        }
        Ok(())
    }

    /// Set the role of the first entry with id `instance_id`; `NotFound`
    /// when there is none.
    fn set_role(&mut self, instance_id: &str, role: InstanceRole) -> (r: Result<(), RegistryError>)
        ensures
            match spec_set_role(old(self)@, instance_id@, role) {
                Some(es) => r is Ok && final(self)@ == es,
                None => r matches Err(RegistryError::NotFound(m)) && m@ == instance_id@ && final(self)@ == old(self)@,
            },
            unique_keys(final(self)@),
    {
        proof {
            use_type_invariant(&*self);
        }
        let ghost es = self.entries@;
        let id = string_of(instance_id);
        match self.find_id(&id) {
            Some(k) => {
                proof {
                    let c = choose|c: int| first_with_id(es, instance_id@, c);
                    lemma_first_with_id_unique(es, instance_id@, c, k as int);
                }
                let mut v: Vec<InstanceInfo> = Vec::new();
                std::mem::swap(&mut v, &mut self.entries);
                let mut e = v.remove(k);
                e.role = role;
                proof {
                    let ns = es.update(k as int, e);
                    assert forall|i: int, j: int| 0 <= i < j < ns.len() implies !has_key(
                        #[trigger] ns[i],
                        ns[j].group@,
                        (#[trigger] ns[j]).instance_id@,
                    ) by {
                        assert(!has_key(es[i], es[j].group@, es[j].instance_id@));
                    }
                }
                v.insert(k, e);
                assert(v@ =~= es.update(k as int, e));
                self.entries = v;
                Ok(())
            },
            None => Err(RegistryError::NotFound(id)),
        }
    }

    /// Remove the first entry with id `instance_id`; `NotFound` when there
    /// is none.
    fn deregister(&mut self, instance_id: &str) -> (r: Result<(), RegistryError>)
        ensures
            match spec_deregister(old(self)@, instance_id@) {
                Some(es) => r is Ok && final(self)@ == es,
                None => r matches Err(RegistryError::NotFound(m)) && m@ == instance_id@ && final(self)@ == old(self)@,
            },
            unique_keys(final(self)@),
    {
        proof {
            use_type_invariant(&*self);
        }
        let ghost es = self.entries@;
        let id = string_of(instance_id);
        match self.find_id(&id) {
            Some(k) => {
                proof {
                    let c = choose|c: int| first_with_id(es, instance_id@, c);
                    lemma_first_with_id_unique(es, instance_id@, c, k as int);
                    let ns = es.remove(k as int);
                    assert forall|i: int, j: int| 0 <= i < j < ns.len() implies !has_key(
                        #[trigger] ns[i],
                        ns[j].group@,
                        (#[trigger] ns[j]).instance_id@,
                    ) by {
                        let oi = if i < k { i } else { i + 1 };
                        let oj = if j < k { j } else { j + 1 };
                        assert(ns[i] == es[oi] && ns[j] == es[oj]);
                        assert(!has_key(es[oi], es[oj].group@, es[oj].instance_id@));
                    }
                }
                let mut v: Vec<InstanceInfo> = Vec::new();
                std::mem::swap(&mut v, &mut self.entries);
                v.remove(k);
                self.entries = v;
                Ok(())
            },
            None => Err(RegistryError::NotFound(id)),
        }
    }

    /// The entries of `group`, in registration order.
    fn list(&self, group: &str) -> (r: Result<Vec<InstanceInfo>, RegistryError>)
        ensures
            r matches Ok(v) && v@ == members(self@, group@),
            unique_keys(self@),
    {
        proof {
            use_type_invariant(self);
        }
        let g = string_of(group);
        let mut out: Vec<InstanceInfo> = Vec::new();
        let mut i: usize = 0;
        while i < self.entries.len()
            invariant
                i <= self.entries@.len(),
                g@ == group@,
                out@ == members(self.entries@.take(i as int), group@),
            decreases self.entries@.len() - i,
        {
            proof {
                assert(self.entries@.take(i + 1).drop_last() =~= self.entries@.take(i as int));
            }
            if self.entries[i].group == g {
                out.push(self.entries[i].duplicate());
            }
            i = i + 1;
        }
        assert(self.entries@.take(i as int) =~= self.entries@);
        Ok(out)
    }
}

/// An entry with a key means a first entry with that key exists.
pub proof fn lemma_first_key_exists(es: Seq<InstanceInfo>, g: Seq<char>, id: Seq<char>, i: int)
    requires
        0 <= i < es.len(),
        has_key(es[i], g, id),
    ensures
        exists|k: int| first_with_key(es, g, id, k),
    decreases i,
{
    if exists|j: int| 0 <= j < i && has_key(es[j], g, id) {
        let j = choose|j: int| 0 <= j < i && has_key(es[j], g, id);
        lemma_first_key_exists(es, g, id, j);
    } else {
        assert(first_with_key(es, g, id, i));
    }
}

/// Replacing an entry outside `group` with another entry outside `group`
/// leaves the group's listing unchanged.
pub proof fn lemma_members_update_other(es: Seq<InstanceInfo>, g: Seq<char>, k: int, x: InstanceInfo)
    requires
        0 <= k < es.len(),
        es[k].group@ != g,
        x.group@ != g,
    ensures
        members(es.update(k, x), g) == members(es, g),
    decreases es.len(),
{
    let ns = es.update(k, x);
    if k == es.len() - 1 {
        assert(ns.drop_last() =~= es.drop_last());
    } else {
        lemma_members_update_other(es.drop_last(), g, k, x);
        assert(ns.drop_last() =~= es.drop_last().update(k, x));
    }
}

/// An entry of `group` is listed for `group`.
pub proof fn lemma_members_contains(es: Seq<InstanceInfo>, g: Seq<char>, k: int)
    requires
        0 <= k < es.len(),
        es[k].group@ == g,
    ensures
        members(es, g).contains(es[k]),
    decreases es.len(),
{
    if k == es.len() - 1 {
        assert(members(es, g).last() == es[k]);
    } else {
        lemma_members_contains(es.drop_last(), g, k);
        let m = members(es.drop_last(), g);
        let j = choose|j: int| 0 <= j < m.len() && m[j] == es[k];
        if es.last().group@ == g {
            assert(members(es, g)[j] == es[k]);
        }
    }
}

/// Registering an instance lists it in its group, leaves every other
/// group's listing unchanged, and registering it again changes nothing.
pub proof fn law_register_lists_instance(es: Seq<InstanceInfo>, info: InstanceInfo, g: Seq<char>)
    requires
        unique_keys(es),
    ensures
        members(spec_register(es, info), info.group@).contains(info),
        g != info.group@ ==> members(spec_register(es, info), g) == members(es, g),
        spec_register(spec_register(es, info), info) == spec_register(es, info),
{
    let r = spec_register(es, info);
    if exists|k: int| first_with_key(es, info.group@, info.instance_id@, k) {
        let k = choose|k: int| first_with_key(es, info.group@, info.instance_id@, k);
        assert(r[k] == info);
        lemma_members_contains(r, info.group@, k);
        if g != info.group@ {
            lemma_members_update_other(es, g, k, info);
        }
        assert(first_with_key(r, info.group@, info.instance_id@, k));
        let c = choose|c: int| first_with_key(r, info.group@, info.instance_id@, c);
        lemma_first_with_key_unique(r, info.group@, info.instance_id@, c, k);
        assert(r.update(k, info) =~= r);
    } else {
        let n = es.len() as int;
        assert(r[n] == info);
        lemma_members_contains(r, info.group@, n);
        assert(r.drop_last() =~= es);
        assert forall|j: int| 0 <= j < n implies !has_key(#[trigger] r[j], info.group@, info.instance_id@) by {
            if has_key(r[j], info.group@, info.instance_id@) {
                assert(r[j] == es[j]);
                lemma_first_key_exists(es, info.group@, info.instance_id@, j);
            }
        }
        assert(first_with_key(r, info.group@, info.instance_id@, n));
        let c = choose|c: int| first_with_key(r, info.group@, info.instance_id@, c);
        lemma_first_with_key_unique(r, info.group@, info.instance_id@, c, n);
        assert(r.update(n, info) =~= r);
    }
}

/// Setting a role changes exactly the first entry with that id, and only
/// its role; deregistering removes exactly one entry.
pub proof fn law_role_and_deregister(es: Seq<InstanceInfo>, id: Seq<char>, role: InstanceRole)
    ensures
        spec_set_role(es, id, role) matches Some(ns) ==> (ns.len() == es.len() && exists|k: int| {
            &&& 0 <= k < es.len()
            &&& es[k].instance_id@ == id
            &&& ns[k] == (InstanceInfo { role, ..es[k] })
            &&& forall|j: int| 0 <= j < es.len() && j != k ==> ns[j] == es[j]
        }),
        spec_set_role(es, id, role) is None <==> forall|j: int| 0 <= j < es.len() ==> (#[trigger] es[j]).instance_id@ != id,
        spec_deregister(es, id) matches Some(ns) ==> ns.len() + 1 == es.len(),
        spec_deregister(es, id) is None <==> spec_set_role(es, id, role) is None,
{
    if exists|j: int| 0 <= j < es.len() && (#[trigger] es[j]).instance_id@ == id {
        let j = choose|j: int| 0 <= j < es.len() && (#[trigger] es[j]).instance_id@ == id;
        lemma_first_id_exists(es, id, j);
    }
    if exists|k: int| first_with_id(es, id, k) {
        let k = choose|k: int| first_with_id(es, id, k);
        assert(es[k].instance_id@ == id);
        let ns = es.update(k, InstanceInfo { role, ..es[k] });
        assert(ns[k] == (InstanceInfo { role, ..es[k] }));
        assert(forall|j: int| 0 <= j < es.len() && j != k ==> ns[j] == es[j]);
    }
}

/// An entry with an id means a first entry with that id exists.
pub proof fn lemma_first_id_exists(es: Seq<InstanceInfo>, id: Seq<char>, i: int)
    requires
        0 <= i < es.len(),
        es[i].instance_id@ == id,
    ensures
        exists|k: int| first_with_id(es, id, k),
    decreases i,
{
    if exists|j: int| 0 <= j < i && (#[trigger] es[j]).instance_id@ == id {
        let j = choose|j: int| 0 <= j < i && (#[trigger] es[j]).instance_id@ == id;
        lemma_first_id_exists(es, id, j);
    } else {
        assert(first_with_id(es, id, i));
    }
}

/// How many entries of `es` have key `(g, id)`.
pub open spec fn count_key(es: Seq<InstanceInfo>, g: Seq<char>, id: Seq<char>) -> nat
    decreases es.len(),
{
    if es.len() == 0 {
        0
    } else {
        count_key(es.drop_last(), g, id) + if has_key(es.last(), g, id) { 1nat } else { 0nat }
    }
}

/// How many entries of `es` have instance id `id`.
pub open spec fn count_id(es: Seq<InstanceInfo>, id: Seq<char>) -> nat
    decreases es.len(),
{
    if es.len() == 0 {
        0
    } else {
        count_id(es.drop_last(), id) + if es.last().instance_id@ == id { 1nat } else { 0nat }
    }
}

/// Among a group's listing, the entries with id `id` are the entries with
/// key `(g, id)`.
proof fn lemma_count_members(es: Seq<InstanceInfo>, g: Seq<char>, id: Seq<char>)
    ensures
        count_id(members(es, g), id) == count_key(es, g, id),
    decreases es.len(),
{
    if es.len() > 0 {
        lemma_count_members(es.drop_last(), g, id);
        if es.last().group@ == g {
            assert(members(es, g).drop_last() =~= members(es.drop_last(), g));
        }
    }
}

/// With unique keys, a key that occurs at `k` occurs once.
proof fn lemma_count_unique(es: Seq<InstanceInfo>, g: Seq<char>, id: Seq<char>, k: int)
    requires
        unique_keys(es),
        0 <= k < es.len(),
        has_key(es[k], g, id),
    ensures
        count_key(es, g, id) == 1,
    decreases es.len(),
{
    let n = es.len() - 1;
    if k == n {
        lemma_count_absent(es.drop_last(), g, id);
    } else {
        assert(unique_keys(es.drop_last()));
        lemma_count_unique(es.drop_last(), g, id, k);
        assert(!has_key(es[k], es[n].group@, es[n].instance_id@));
    }
}

/// A key that occurs nowhere is counted zero times.
proof fn lemma_count_absent(es: Seq<InstanceInfo>, g: Seq<char>, id: Seq<char>)
    requires
        forall|j: int| 0 <= j < es.len() ==> !has_key(#[trigger] es[j], g, id),
    ensures
        count_key(es, g, id) == 0,
    decreases es.len(),
{
    if es.len() > 0 {
        lemma_count_absent(es.drop_last(), g, id);
    }
}

/// Every entry of a group's listing is an entry of that group.
proof fn lemma_members_from(es: Seq<InstanceInfo>, g: Seq<char>, j: int)
    requires
        0 <= j < members(es, g).len(),
    ensures
        exists|i: int| 0 <= i < es.len() && es[i] == members(es, g)[j] && es[i].group@ == g,
    decreases es.len(),
{
    let m = members(es, g);
    let n = es.len() - 1;
    if es.last().group@ == g && j == m.len() - 1 {
        assert(es[n] == m[j]);
    } else {
        assert(m[j] == members(es.drop_last(), g)[j]);
        lemma_members_from(es.drop_last(), g, j);
        let i = choose|i: int| 0 <= i < es.drop_last().len() && es.drop_last()[i] == members(es.drop_last(), g)[j]
            && es.drop_last()[i].group@ == g;
        assert(es[i] == m[j]);
    }
}

/// Replacing an entry of `group` by another entry of `group` keeps the
/// listing's length.
proof fn lemma_members_update_same(es: Seq<InstanceInfo>, g: Seq<char>, k: int, x: InstanceInfo)
    requires
        0 <= k < es.len(),
        es[k].group@ == g,
        x.group@ == g,
    ensures
        members(es.update(k, x), g).len() == members(es, g).len(),
    decreases es.len(),
{
    let ns = es.update(k, x);
    if k == es.len() - 1 {
        assert(ns.drop_last() =~= es.drop_last());
    } else {
        lemma_members_update_same(es.drop_last(), g, k, x);
        assert(ns.drop_last() =~= es.drop_last().update(k, x));
    }
}

/// Registering an entry whose key is already present is an upsert: the
/// group's listing keeps its length, holds exactly one entry with that
/// instance id, and that entry is the one registered last.
pub proof fn law_register_upserts(es: Seq<InstanceInfo>, info: InstanceInfo, j: int)
    requires
        unique_keys(es),
        0 <= j < es.len(),
        has_key(es[j], info.group@, info.instance_id@),
    ensures
        ({
            let m = members(spec_register(es, info), info.group@);
            &&& m.len() == members(es, info.group@).len()
            &&& count_id(m, info.instance_id@) == 1
            &&& forall|i: int| 0 <= i < m.len() && (#[trigger] m[i]).instance_id@ == info.instance_id@ ==> m[i] == info
        }),
{
    let g = info.group@;
    let id = info.instance_id@;
    lemma_first_key_exists(es, g, id, j);
    let k = choose|k: int| first_with_key(es, g, id, k);
    let r = spec_register(es, info);
    assert(r == es.update(k, info));
    lemma_members_update_same(es, g, k, info);
    assert(unique_keys(r)) by {
        assert forall|a: int, b: int| 0 <= a < b < r.len() implies !has_key(
            #[trigger] r[a],
            r[b].group@,
            (#[trigger] r[b]).instance_id@,
        ) by {
            assert(!has_key(es[a], es[b].group@, es[b].instance_id@));
        }
    }
    assert(has_key(r[k], g, id));
    lemma_count_unique(r, g, id, k);
    lemma_count_members(r, g, id);
    let m = members(r, g);
    assert forall|i: int| 0 <= i < m.len() && (#[trigger] m[i]).instance_id@ == id implies m[i] == info by {
        lemma_members_from(r, g, i);
        let q = choose|q: int| 0 <= q < r.len() && r[q] == m[i] && r[q].group@ == g;
        if q < k {
            assert(!has_key(r[q], r[k].group@, r[k].instance_id@));
        } else if k < q {
            assert(!has_key(r[k], r[q].group@, r[q].instance_id@));
        }
    }
}

/// Deregistering removes exactly one entry, one carrying the given instance
/// id (the first such), and nothing else: every other entry stays, in order;
/// it fails exactly when no entry carries the id.
pub proof fn law_deregister_removes_that_instance(es: Seq<InstanceInfo>, id: Seq<char>)
    ensures
        spec_deregister(es, id) is Some <==> exists|j: int| 0 <= j < es.len() && (#[trigger] es[j]).instance_id@ == id,
        spec_deregister(es, id) matches Some(ns) ==> exists|k: int|
            0 <= k < es.len() && (#[trigger] es[k]).instance_id@ == id && ns == es.remove(k) && forall|j: int|
                0 <= j < k ==> (#[trigger] es[j]).instance_id@ != id,
        spec_deregister(es, id) matches Some(ns) ==> forall|x: InstanceInfo| #[trigger] es.contains(x)
            && x.instance_id@ != id ==> ns.contains(x),
{
    if exists|j: int| 0 <= j < es.len() && (#[trigger] es[j]).instance_id@ == id {
        let j = choose|j: int| 0 <= j < es.len() && (#[trigger] es[j]).instance_id@ == id;
        lemma_first_id_exists(es, id, j);
    }
    if exists|k: int| first_with_id(es, id, k) {
        let k = choose|k: int| first_with_id(es, id, k);
        let ns = es.remove(k);
        assert(es[k].instance_id@ == id);
        assert forall|x: InstanceInfo| #[trigger] es.contains(x) && x.instance_id@ != id implies ns.contains(x) by {
            let i = choose|i: int| 0 <= i < es.len() && es[i] == x;
            assert(i != k);
            if i < k {
                assert(ns[i] == x);
            } else {
                assert(ns[i - 1] == x);
            }
        }
    }
}

} // verus!
