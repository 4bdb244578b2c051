//! Uniform drain semantics: the shutdown kinds and the drain/shutdown state
//! machine that every serve loop observes.
use vstd::prelude::*;

verus! {

/// Why the process is stopping (or reloading).
#[derive(Debug, Clone, Copy, PartialEq, Eq, Structural)]
pub enum ShutdownKind {
    /// `SIGINT` / `SIGTERM` — drain in-flight work, then exit 0.
    Graceful,
    /// `SIGQUIT` — skip drain, exit fast.
    Immediate,
    /// `SIGHUP` — reload configuration; do NOT exit.
    Reload,
}

/// Encoded value meaning "no trigger has fired".
pub const KIND_NONE: u8 = 0;
/// Encoded value of [`ShutdownKind::Graceful`].
pub const KIND_GRACEFUL: u8 = 1;
/// Encoded value of [`ShutdownKind::Immediate`].
pub const KIND_IMMEDIATE: u8 = 2;
/// Encoded value of [`ShutdownKind::Reload`].
pub const KIND_RELOAD: u8 = 3;

/// The byte each kind is stored as.
pub open spec fn kind_code(k: ShutdownKind) -> u8 {
    match k {
        ShutdownKind::Graceful => KIND_GRACEFUL,
        ShutdownKind::Immediate => KIND_IMMEDIATE,
        ShutdownKind::Reload => KIND_RELOAD,
    }
}

/// The kind a stored byte stands for (`None` for "nothing fired" and for
/// unknown bytes).
pub open spec fn kind_of_code(v: u8) -> Option<ShutdownKind> {
    if v == KIND_GRACEFUL {
        Some(ShutdownKind::Graceful)
    } else if v == KIND_IMMEDIATE {
        Some(ShutdownKind::Immediate)
    } else if v == KIND_RELOAD {
        Some(ShutdownKind::Reload)
    } else {
        None
    }
}

impl ShutdownKind {
    /// Whether the kind leads to an actual drain (graceful or immediate).
    pub open spec fn spec_causes_drain(self) -> bool {
        self == ShutdownKind::Graceful || self == ShutdownKind::Immediate
    }

    /// The byte this kind is stored as.
    pub fn to_u8(self) -> (r: u8)
        ensures
            r == kind_code(self),
    {
        match self {
            ShutdownKind::Graceful => KIND_GRACEFUL,
            ShutdownKind::Immediate => KIND_IMMEDIATE,
            ShutdownKind::Reload => KIND_RELOAD,
        }
    }

    /// Decode a stored byte.
    pub fn from_u8(v: u8) -> (r: Option<ShutdownKind>)
        ensures
            r == kind_of_code(v),
    {
        if v == KIND_NONE {
            None
        } else if v == KIND_GRACEFUL {
            Some(ShutdownKind::Graceful)
        } else if v == KIND_IMMEDIATE {
            Some(ShutdownKind::Immediate)
        } else if v == KIND_RELOAD {
            Some(ShutdownKind::Reload)
        } else {
            None
        }
    }

    /// Whether this kind triggers an actual drain (vs. a no-exit reload).
    pub fn causes_drain(self) -> (r: bool)
        ensures
            r == self.spec_causes_drain(),
    {
        match self {
            ShutdownKind::Graceful => true,
            ShutdownKind::Immediate => true,
            ShutdownKind::Reload => false,
        }
    }
}

/// Decoding the stored byte of a kind gives the kind back, and no kind is
/// stored as the "nothing fired" byte.
pub proof fn lemma_kind_code_roundtrip(k: ShutdownKind)
    ensures
        kind_of_code(kind_code(k)) == Some(k),
        kind_code(k) != KIND_NONE,
{
}

} // verus!

verus! {

/// The observable drain state: the last trigger that fired (if any), and the
/// trigger that started the drain (`None` while not draining).
pub type DrainView = (Option<ShutdownKind>, Option<ShutdownKind>);

/// State of a controller that was just created: nothing fired, not draining.
pub open spec fn fresh_drain_view() -> DrainView {
    (None, None)
}

/// State after a trigger of kind `k` fires: the kind is recorded as the last
/// one; when not yet draining, a graceful or immediate trigger starts the
/// drain and is kept as its cause (later triggers never replace it, and a
/// reload never starts or stops a drain).
pub open spec fn drain_view_after_begin(v: DrainView, k: ShutdownKind) -> DrainView {
    (
        Some(k),
        if v.1 is Some {
            v.1
        } else if k.spec_causes_drain() {
            Some(k)
        } else {
            None
        },
    )
}

/// State after the drain is reset: back to the fresh state.
pub open spec fn drain_view_after_clear(v: DrainView) -> DrainView {
    fresh_drain_view()
}

/// What a waiter on the drain observes in state `v`: `None` while it keeps
/// waiting, else the kind that caused the drain.
pub open spec fn drain_outcome(v: DrainView) -> Option<ShutdownKind> {
    v.1
}

/// Drain/shutdown state of a service: the last shutdown/reload trigger and
/// the trigger that started the drain every serve loop observes.
///
/// A service has one controller, and the type offers no copy of it: every
/// task that begins or awaits the drain works on that single controller
/// (held behind a lock by the runtime, which wakes the waiters whenever it
/// changes), so a drain begun by any task is seen by all of them.
#[derive(Debug)]
pub struct DrainController {
    cause: u8,
    kind: u8,
}

impl View for DrainController {
    type V = DrainView;

    closed spec fn view(&self) -> DrainView {
        (kind_of_code(self.kind), kind_of_code(self.cause))
    }
}

impl Default for DrainController {
    /// A fresh controller: no trigger recorded, not draining.
    fn default() -> (r: DrainController)
        ensures
            r@ == fresh_drain_view(),
    {
        DrainController::new()
    }
}

impl DrainController {
    /// Create a fresh controller (nothing draining yet).
    pub fn new() -> (r: DrainController)
        ensures
            r@ == fresh_drain_view(),
    {
        DrainController { cause: KIND_NONE, kind: KIND_NONE }
    }

    /// Current shutdown kind, if any trigger has fired.
    pub fn kind(&self) -> (r: Option<ShutdownKind>)
        ensures
            r == self@.0,
    {
        ShutdownKind::from_u8(self.kind)
    }

    /// Whether drain has begun (a graceful/immediate trigger fired).
    pub fn is_draining(&self) -> (r: bool)
        ensures
            r == self@.1 is Some,
    {
        ShutdownKind::from_u8(self.cause).is_some()
    }

    /// Begin draining with `kind`: the kind is recorded; a graceful or
    /// immediate trigger starts the drain unless one is already under way (a
    /// reload keeps the server serving).
    pub fn begin_drain(&mut self, kind: ShutdownKind)
        ensures
            final(self)@ == drain_view_after_begin(old(self)@, kind),
    {
        proof {
            lemma_kind_code_roundtrip(kind);
        }
        self.kind = kind.to_u8();
        if ShutdownKind::from_u8(self.cause).is_none() && kind.causes_drain() {
            self.cause = kind.to_u8();
        }
    }

    /// Reset the drain and the recorded kind (e.g. after handling a reload).
    pub fn clear_drain(&mut self)
        ensures
            final(self)@ == drain_view_after_clear(old(self)@),
    {
        self.cause = KIND_NONE;
        self.kind = KIND_NONE;
    }

    /// What a task waiting for a shutdown/reload trigger gets now: the
    /// recorded kind, or `None` while it must keep waiting.
    pub fn signal_outcome(&self) -> (r: Option<ShutdownKind>)
        ensures
            r == self@.0,
    {
        self.kind()
    }

    /// What a task waiting for the drain gets now: `None` while it must keep
    /// waiting, else the kind that caused the drain.
    pub fn drain_outcome(&self) -> (r: Option<ShutdownKind>)
        ensures
            r == drain_outcome(self@),
    {
        ShutdownKind::from_u8(self.cause)
    }
}

/// Every trigger is recorded as the current kind; a graceful or immediate
/// trigger always leaves the controller draining; a reload never changes
/// whether it drains, so a service that was serving keeps serving across
/// reloads; once draining, the cause of the drain stays until it is cleared;
/// and clearing returns the controller to its freshly created state.
pub proof fn law_drain_transitions(v: DrainView, k: ShutdownKind)
    ensures
        drain_view_after_begin(v, k).0 == Some(k),
        k.spec_causes_drain() ==> drain_view_after_begin(v, k).1 is Some,
        k == ShutdownKind::Reload ==> drain_view_after_begin(v, k).1 == v.1,
        v.1 is Some ==> drain_view_after_begin(v, k).1 == v.1,
        drain_view_after_clear(v) == fresh_drain_view(),
{
}

/// A waiter on the drain is released exactly when a graceful or immediate
/// trigger has fired since the last clear, and observes the kind of the
/// first such trigger (later triggers, reloads included, do not change it);
/// a fresh controller never releases it.
pub proof fn law_drain_release(v: DrainView, k: ShutdownKind)
    ensures
        drain_outcome(fresh_drain_view()) is None,
        v.1 is None && k.spec_causes_drain() ==> drain_outcome(drain_view_after_begin(v, k)) == Some(k),
        v.1 is Some ==> drain_outcome(drain_view_after_begin(v, k)) == v.1,
        v.1 is None ==> drain_outcome(drain_view_after_begin(v, ShutdownKind::Reload)) is None,
{
}

} // verus!
