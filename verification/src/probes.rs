//! Split health probes: liveness (`/healthz`) and readiness (`/readyz`, with
//! the drain bit). The HTTP routes are served by the runtime; what each
//! probe reports is computed here.
use vstd::prelude::*;
use crate::text::string_of;
use crate::hooks::ProbeSink;
use crate::types::{DependencyCheck, DrainState, HealthStatus, ReadyStatus};

verus! {

/// A monotonic instant (`std::time::Instant`); opaque here.
#[verifier::external_type_specification]
#[verifier::external_body]
pub struct ExInstant(std::time::Instant);

/// `Instant::now()`: the current instant (nothing is stated of it).
#[verifier::external_body]
pub(crate) fn instant_now() -> std::time::Instant {
    std::time::Instant::now()
}

/// `Instant::elapsed` in whole seconds (depends on the clock; nothing is
/// stated of it).
#[verifier::external_body]
pub(crate) fn elapsed_secs(start: &std::time::Instant) -> u64 {
    start.elapsed().as_secs()
}



/// Shared state behind the probes; `C` is the kind of readiness check
/// registered: a closure answering `true` while its dependency is healthy.
pub struct ProbeState<C: Fn() -> bool + Send + Sync> {
    version: String,
    start: std::time::Instant,
    drain_state: DrainState,
    generation: Option<u64>,
    deps: Vec<(String, C)>,
}

/// A drain state that keeps new traffic away.
pub open spec fn is_draining_state(s: DrainState) -> bool {
    s == DrainState::Draining || s == DrainState::Reloading
}

impl<C: Fn() -> bool + Send + Sync> ProbeState<C> {
    /// The service version reported by liveness.
    pub closed spec fn spec_version(&self) -> Seq<char> {
        self.version@
    }

    /// The current drain state.
    pub closed spec fn spec_drain_state(&self) -> DrainState {
        self.drain_state
    }

    /// The deployment generation.
    pub closed spec fn spec_generation(&self) -> Option<u64> {
        self.generation
    }

    /// The names of the registered readiness dependencies, in order.
    pub closed spec fn spec_dep_names(&self) -> Seq<Seq<char>> {
        self.deps@.map_values(|d: (String, C)| d.0@)
    }

    /// The registered readiness checks, in the order of their names.
    pub closed spec fn spec_checks(&self) -> Seq<C> {
        self.deps@.map_values(|d: (String, C)| d.1)
    }

    /// Every registered check may be run.
    #[verifier::type_invariant]
    closed spec fn inv(&self) -> bool {
        forall|i: int| 0 <= i < self.deps@.len() ==> call_requires((#[trigger] self.deps@[i]).1, ())
    }

    /// Fresh state: active, no generation, no dependencies.
    pub fn new(version: String) -> (r: ProbeState<C>)
        ensures
            r.spec_version() == version@,
            r.spec_drain_state() == DrainState::Active,
            r.spec_generation() is None,
            r.spec_dep_names().len() == 0,
            r.spec_checks().len() == 0,
    {
        let r = ProbeState {
            version,
            start: instant_now(),
            drain_state: DrainState::Active,
            generation: None,
            deps: Vec::new(),
        };
        assert(r.spec_dep_names() =~= Seq::<Seq<char>>::empty());
        assert(r.spec_checks() =~= Seq::<C>::empty());
        r
    }

    /// Register a readiness dependency, checked by `check`, which must be
    /// callable with no arguments: a closure with no `requires` always is.
    pub fn add_dependency(&mut self, name: String, check: C)
        requires
            call_requires(check, ()),
        ensures
            final(self).spec_dep_names() == old(self).spec_dep_names().push(name@),
            final(self).spec_checks() == old(self).spec_checks().push(check),
            final(self).spec_version() == old(self).spec_version(),
            final(self).spec_drain_state() == old(self).spec_drain_state(),
            final(self).spec_generation() == old(self).spec_generation(),
    {
        proof {
            use_type_invariant(&*self);
        }
        let ghost n = name@;
        let ghost c = check;
        let mut deps: Vec<(String, C)> = Vec::new();
        std::mem::swap(&mut deps, &mut self.deps);
        deps.push((name, check));
        self.deps = deps;
        assert(self.spec_dep_names() =~= old(self).spec_dep_names().push(n));
        assert(self.spec_checks() =~= old(self).spec_checks().push(c));
    }

    /// Set the drain state (Active / Draining / Reloading).
    pub fn set_drain_state(&mut self, state: DrainState)
        ensures
            final(self).spec_drain_state() == state,
            final(self).spec_dep_names() == old(self).spec_dep_names(),
            final(self).spec_version() == old(self).spec_version(),
            final(self).spec_generation() == old(self).spec_generation(),
            final(self).spec_checks() == old(self).spec_checks(),
    {
        proof {
            use_type_invariant(&*self);
        }
        self.drain_state = state;
    }

    /// Record the deployment generation.
    pub fn set_generation(&mut self, generation: Option<u64>)
        ensures
            final(self).spec_generation() == generation,
            final(self).spec_dep_names() == old(self).spec_dep_names(),
            final(self).spec_version() == old(self).spec_version(),
            final(self).spec_drain_state() == old(self).spec_drain_state(),
            final(self).spec_checks() == old(self).spec_checks(),
    {
        proof {
            use_type_invariant(&*self);
        }
        self.generation = generation;
    }
}

impl<C: Fn() -> bool + Send + Sync> ProbeSink for ProbeState<C> {
    /// Readiness: the drain bit (set while draining or reloading), one result
    /// per dependency in registration order, each the answer of that
    /// dependency's check (a failed one carries the detail `unhealthy`), and
    /// ready exactly when not draining and every check passed.
    fn ready(&self) -> (r: ReadyStatus)
        ensures
            r.draining == is_draining_state(self.spec_drain_state()),
            r.generation == self.spec_generation(),
            r.dependencies@.len() == self.spec_dep_names().len(),
            forall|i: int| 0 <= i < r.dependencies@.len() ==> {
                &&& (#[trigger] r.dependencies@[i]).name@ == self.spec_dep_names()[i]
                &&& call_ensures(self.spec_checks()[i], (), r.dependencies@[i].ok)
                &&& r.dependencies@[i].ok ==> r.dependencies@[i].detail is None
                &&& !r.dependencies@[i].ok ==> (r.dependencies@[i].detail matches Some(d) && d@ == "unhealthy"@)
            },
            r.ready == (!r.draining && forall|i: int| 0 <= i < r.dependencies@.len() ==> (#[trigger] r.dependencies@[i]).ok),
    {
        let draining = match self.drain_state {
            DrainState::Draining => true,
            DrainState::Reloading => true,
            DrainState::Active => false,
        };
        proof {
            use_type_invariant(self);
        }
        let mut dependencies: Vec<DependencyCheck> = Vec::new();
        let mut all_ok = true;
        let mut i: usize = 0;
        while i < self.deps.len()
            invariant
                i <= self.deps@.len(),
                dependencies@.len() == i,
                forall|k: int| 0 <= k < i ==> {
                    &&& (#[trigger] dependencies@[k]).name@ == self.deps@[k].0@
                    &&& call_ensures(self.deps@[k].1, (), dependencies@[k].ok)
                    &&& dependencies@[k].ok ==> dependencies@[k].detail is None
                    &&& !dependencies@[k].ok ==> (dependencies@[k].detail matches Some(d) && d@ == "unhealthy"@)
                },
                all_ok == forall|k: int| 0 <= k < i ==> (#[trigger] dependencies@[k]).ok,
                forall|k: int| 0 <= k < self.deps@.len() ==> call_requires((#[trigger] self.deps@[k]).1, ()),
            decreases self.deps@.len() - i,
        {
            assert(call_requires(self.deps@[i as int].1, ()));
            let ok = (self.deps[i].1)();
            if !ok {
                all_ok = false;
            }
            let detail = if ok { None } else { Some(string_of("unhealthy")) };
            let ghost before = dependencies@;
            dependencies.push(DependencyCheck { name: self.deps[i].0.clone(), ok, detail });
            assert(dependencies@[i as int].ok == ok);
            assert(forall|k: int| 0 <= k < i ==> dependencies@[k] == before[k]);
            i = i + 1;
        }
        ReadyStatus { ready: !draining && all_ok, draining, dependencies, generation: self.generation }
    }

    /// Liveness, as reported by process `pid`: alive, with the seconds since
    /// this state was created and the service version.
    fn health(&self, pid: u32) -> (r: HealthStatus)
        ensures
            r.alive,
            r.pid == pid,
            r.version@ == self.spec_version(),
    {
        HealthStatus { alive: true, pid, uptime_secs: elapsed_secs(&self.start), version: self.version.clone() }
    }
}

/// The HTTP status `/readyz` answers with: 200 when ready, else 503.
pub fn readyz_status_code(status: &ReadyStatus) -> (r: u16)
    ensures
        r == if status.ready { 200u16 } else { 503u16 },
{
    if status.ready {
        200
    } else {
        503
    }
}

/// The drain bit is set in every drain state but `Active`: a draining or
/// reloading instance never reports ready, so no new traffic is routed to it.
pub proof fn law_drain_bit_outside_active(s: DrainState)
    ensures
        is_draining_state(s) <==> s != DrainState::Active,
{
}

} // verus!
