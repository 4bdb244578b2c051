//! The method-name → handler table behind a JSON-RPC server: registering a
//! handler under a name replaces any earlier one, and dispatching a request
//! finds the handler of its method or answers "method not found".
use vstd::prelude::*;
use vstd::string::*;
use crate::jsonrpc::{RpcError, METHOD_NOT_FOUND};
use crate::text::text_eq;

verus! {

/// The table that a list of `(name, handler)` entries describes, later
/// entries taking precedence.
pub open spec fn entries_table<H>(e: Seq<(Seq<char>, H)>) -> Map<Seq<char>, H>
    decreases e.len(),
{
    if e.len() == 0 {
        Map::empty()
    } else {
        entries_table(e.drop_last()).insert(e.last().0, e.last().1)
    }
}

/// No name occurs twice among the entries.
pub open spec fn names_unique<H>(e: Seq<(Seq<char>, H)>) -> bool {
    forall|i: int, j: int| 0 <= i < j < e.len() ==> #[trigger] e[i].0 != #[trigger] e[j].0
}

/// With distinct names, the table maps each entry's name to its handler and
/// holds no other name.
proof fn lemma_entries_table<H>(e: Seq<(Seq<char>, H)>)
    requires
        names_unique(e),
    ensures
        forall|i: int| 0 <= i < e.len() ==> #[trigger] entries_table(e).contains_key(e[i].0) && entries_table(e)[e[i].0]
            == e[i].1,
        forall|n: Seq<char>| #[trigger] entries_table(e).contains_key(n) ==> exists|i: int| 0 <= i < e.len() && e[i].0 == n,
    decreases e.len(),
{
    if e.len() > 0 {
        let d = e.drop_last();
        assert(names_unique(d)) by {
            assert forall|i: int, j: int| 0 <= i < j < d.len() implies #[trigger] d[i].0 != #[trigger] d[j].0 by {
                assert(d[i] == e[i] && d[j] == e[j]);
            }
        }
        lemma_entries_table(d);
        let last = (e.len() - 1) as int;
        assert forall|i: int| 0 <= i < e.len() implies #[trigger] entries_table(e).contains_key(e[i].0)
            && entries_table(e)[e[i].0] == e[i].1 by {
            if i < last {
                assert(d[i] == e[i]);
                assert(e[i].0 != e[last].0);
                assert(entries_table(d).contains_key(d[i].0) && entries_table(d)[d[i].0] == d[i].1);
            } else {
                assert(e[i] == e.last());
            }
        }
        assert forall|n: Seq<char>| #[trigger] entries_table(e).contains_key(n) implies exists|i: int|
            0 <= i < e.len() && e[i].0 == n by {
            if n != e.last().0 {
                assert(entries_table(d).contains_key(n));
                let i = choose|i: int| 0 <= i < d.len() && d[i].0 == n;
                assert(e[i] == d[i]);
            } else {
                assert(e[last].0 == n);
            }
        }
    }
}

/// Replacing the handler of an entry whose name is `n` updates the table at
/// `n` only.
proof fn lemma_entries_table_update<H>(e: Seq<(Seq<char>, H)>, i: int, h: H)
    requires
        names_unique(e),
        0 <= i < e.len(),
    ensures
        entries_table(e.update(i, (e[i].0, h))) == entries_table(e).insert(e[i].0, h),
    decreases e.len(),
{
    let n = e[i].0;
    let u = e.update(i, (n, h));
    let last = (e.len() - 1) as int;
    if i == last {
        assert(u.drop_last() =~= e.drop_last());
        assert(entries_table(u) =~= entries_table(e).insert(n, h));
    } else {
        let d = e.drop_last();
        assert(names_unique(d)) by {
            assert forall|a: int, b: int| 0 <= a < b < d.len() implies #[trigger] d[a].0 != #[trigger] d[b].0 by {
                assert(d[a] == e[a] && d[b] == e[b]);
            }
        }
        lemma_entries_table_update(d, i, h);
        assert(u.drop_last() =~= d.update(i, (n, h)));
        assert(d[i] == e[i]);
        assert(e[i].0 != e[last].0);
        assert(entries_table(u) =~= entries_table(e).insert(n, h));
    }
}

/// A method-name → handler router: at most one handler per name.
pub struct Router<H> {
    handlers: Vec<(String, H)>,
}

impl<H> Router<H> {
    /// The registered entries, as names and handlers.
    closed spec fn entries(&self) -> Seq<(Seq<char>, H)> {
        self.handlers@.map_values(|p: (String, H)| (p.0@, p.1))
    }

    #[verifier::type_invariant]
    closed spec fn inv(&self) -> bool {
        names_unique(self.entries())
    }

    /// The handler registered under each name.
    pub closed spec fn table(&self) -> Map<Seq<char>, H> {
        entries_table(self.entries())
    }

    /// An empty router.
    pub fn new() -> (r: Router<H>)
        ensures
            r.table() == Map::<Seq<char>, H>::empty(),
    {
        let r = Router { handlers: Vec::new() };
        assert(r.entries() =~= Seq::<(Seq<char>, H)>::empty());
        r
    }

    /// Register `f` as the handler of `name`, replacing any earlier one.
    pub fn route(self, name: String, f: H) -> (r: Router<H>)
        ensures
            r.table() == self.table().insert(name@, f),
    {
        proof {
            use_type_invariant(&self);
        }
        let ghost e0 = self.entries();
        let ghost t0 = self.table();
        assert(t0 == entries_table(e0));
        let mut handlers = self.handlers;
        let mut i: usize = 0;
        while i < handlers.len()
            invariant
                handlers@.map_values(|p: (String, H)| (p.0@, p.1)) == e0,
                i <= handlers@.len(),
                names_unique(e0),
                t0 == entries_table(e0),
                t0 == self.table(),
                forall|k: int| 0 <= k < i ==> #[trigger] e0[k].0 != name@,
            decreases handlers@.len() - i,
        {
            if text_eq(handlers[i].0.as_str(), name.as_str()) {
                assert(e0[i as int] == (handlers@[i as int].0@, handlers@[i as int].1));
                assert(e0[i as int].0 == name@);
                let ghost u = e0.update(i as int, (e0[i as int].0, f));
                handlers.set(i, (name, f));
                proof {
                    assert(handlers@.map_values(|p: (String, H)| (p.0@, p.1)) =~= u);
                    assert forall|a: int, b: int| 0 <= a < b < u.len() implies #[trigger] u[a].0 != #[trigger] u[b].0 by {
                        assert(u[a].0 == e0[a].0 && u[b].0 == e0[b].0);
                    }
                    lemma_entries_table_update(e0, i as int, f);
                }
                let r = Router { handlers };
                assert(r.entries() == u);
                assert(r.table() == t0.insert(name@, f));
                return r;
            }
            i = i + 1;
        }
        let ghost nm = name@;
        handlers.push((name, f));
        proof {
            let u = handlers@.map_values(|p: (String, H)| (p.0@, p.1));
            assert(u =~= e0.push((nm, f)));
            assert(u.drop_last() =~= e0);
            assert forall|a: int, b: int| 0 <= a < b < u.len() implies #[trigger] u[a].0 != #[trigger] u[b].0 by {
                if b < e0.len() {
                    assert(u[a] == e0[a] && u[b] == e0[b]);
                } else {
                    assert(u[a] == e0[a]);
                }
            }
        }
        let r = Router { handlers };
        r
    }

    /// The handler of `method`, or the "method not found" error naming it.
    pub fn lookup(&self, method: &str) -> (r: Result<&H, RpcError>)
        ensures
            match r {
                Ok(h) => self.table().contains_key(method@) && *h == self.table()[method@],
                Err(e) => !self.table().contains_key(method@) && e.code == METHOD_NOT_FOUND && e.message@
                    == "method not found: "@ + method@ && e.data is None,
            },
    {
        proof {
            use_type_invariant(self);
            lemma_entries_table(self.entries());
        }
        let mut i: usize = 0;
        while i < self.handlers.len()
            invariant
                i <= self.handlers@.len(),
                self.entries().len() == self.handlers@.len(),
                names_unique(self.entries()),
                forall|k: int| 0 <= k < i ==> #[trigger] self.entries()[k].0 != method@,
            decreases self.handlers@.len() - i,
        {
            assert(self.entries()[i as int] == (self.handlers@[i as int].0@, self.handlers@[i as int].1));
            if text_eq(self.handlers[i].0.as_str(), method) {
                proof {
                    lemma_entries_table(self.entries());
                    assert(self.table().contains_key(self.entries()[i as int].0));
                }
                return Ok(&self.handlers[i].1);
            }
            i = i + 1;
        }
        proof {
            lemma_entries_table(self.entries());
            if self.table().contains_key(method@) {
                let k = choose|k: int| 0 <= k < self.entries().len() && self.entries()[k].0 == method@;
                assert(self.entries()[k].0 != method@);
            }
        }
        Err(RpcError::method_not_found(method))
    }
}

} // verus!
