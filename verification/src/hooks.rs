//! Pluggable lifecycle hooks: why an exit source fired, what a heartbeat
//! reports, and how the default OS-signal exit source answers each signal.
use vstd::prelude::*;
use crate::lifecycle::{drain_view_after_begin, DrainController, DrainView, ShutdownKind};
use crate::types::{HealthStatus, HeartbeatBeat, ReadyStatus};

verus! {

/// Why an exit source fired.
#[derive(Debug, Clone, Copy, PartialEq, Eq, Structural)]
pub struct ExitReason {
    /// The kind of shutdown implied.
    pub kind: ShutdownKind,
    /// Whether the process should actually exit once drain completes
    /// (`false` for a pure reload that keeps the process alive).
    pub should_exit: bool,
}

impl ExitReason {
    /// A graceful drain that should terminate the process.
    pub fn graceful() -> (r: ExitReason)
        ensures
            r == (ExitReason { kind: ShutdownKind::Graceful, should_exit: true }),
    {
        ExitReason { kind: ShutdownKind::Graceful, should_exit: true }
    }

    /// An immediate (skip-drain) exit.
    pub fn immediate() -> (r: ExitReason)
        ensures
            r == (ExitReason { kind: ShutdownKind::Immediate, should_exit: true }),
    {
        ExitReason { kind: ShutdownKind::Immediate, should_exit: true }
    }

    /// A reload: drain bit stays clear, process keeps running.
    pub fn reload() -> (r: ExitReason)
        ensures
            r == (ExitReason { kind: ShutdownKind::Reload, should_exit: false }),
    {
        ExitReason { kind: ShutdownKind::Reload, should_exit: false }
    }
}

/// `Duration::ZERO`, the default heartbeat interval (its value is not stated
/// here).
#[verifier::external_body]
pub(crate) fn zero_duration() -> std::time::Duration {
    std::time::Duration::ZERO
}

/// `<Duration as Clone>::clone`. Claimed: the copy equals the original
/// (`Duration` is `Copy`).
pub assume_specification[ <std::time::Duration as Clone>::clone ](d: &std::time::Duration) -> (r: std::time::Duration)
    ensures
        r == *d,
;

/// Readiness and liveness as the probes observe them (HTTP `/readyz` and
/// `/healthz`, or the RPC methods `Lifecycle.Status` / `Lifecycle.Health`).
/// Implementations decide how the state is computed.
pub trait ProbeSink {
    /// Current readiness (drain bit and dependency checks).
    fn ready(&self) -> ReadyStatus;

    /// Current liveness, as reported by the process with id `pid`.
    fn health(&self, pid: u32) -> HealthStatus;
}

/// Heartbeat report produced by a heartbeat source.
#[derive(Debug, Clone)]
pub struct HeartbeatReport {
    /// The beat to publish, if any.
    pub beat: Option<HeartbeatBeat>,
    /// Interval until the next beat should be sampled.
    pub next_after: std::time::Duration,
}

impl Default for HeartbeatReport {
    /// The default report: no beat, and a zero interval.
    fn default() -> (r: HeartbeatReport)
        ensures
            r.beat is None,
    {
        HeartbeatReport { beat: None, next_after: zero_duration() }
    }
}

/// The OS signals the default exit source listens for.
#[derive(Debug, Clone, Copy, PartialEq, Eq, Structural)]
pub enum OsSignal {
    /// `SIGINT`.
    Interrupt,
    /// `SIGTERM`.
    Terminate,
    /// `SIGQUIT`.
    Quit,
    /// `SIGHUP`.
    Hangup,
}

/// OS-signal-driven exit source: `SIGINT`/`SIGTERM` drain gracefully,
/// `SIGQUIT` exits immediately, `SIGHUP` reloads without exiting.
#[derive(Debug, Clone, Copy)]
pub struct SignalExitSource;

/// The trigger the signal source records for `sig`.
pub open spec fn signal_kind(sig: OsSignal) -> ShutdownKind {
    match sig {
        OsSignal::Interrupt => ShutdownKind::Graceful,
        OsSignal::Terminate => ShutdownKind::Graceful,
        OsSignal::Quit => ShutdownKind::Immediate,
        OsSignal::Hangup => ShutdownKind::Reload,
    }
}

impl SignalExitSource {
    /// Answer `sig`: the drain is begun on `ctrl` with the signal's kind, and
    /// the exit reason to return comes back — `None` for a reload, after
    /// which the source keeps listening.
    pub fn on_signal(&self, sig: OsSignal, ctrl: &mut DrainController) -> (r: Option<ExitReason>)
        ensures
            final(ctrl)@ == drain_view_after_begin(old(ctrl)@, signal_kind(sig)),
            sig == OsSignal::Hangup ==> r is None,
            sig != OsSignal::Hangup ==> r == Some(ExitReason { kind: signal_kind(sig), should_exit: true }),
    {
        match sig {
            OsSignal::Interrupt => {
                ctrl.begin_drain(ShutdownKind::Graceful);
                Some(ExitReason::graceful())
            },
            OsSignal::Terminate => {
                ctrl.begin_drain(ShutdownKind::Graceful);
                Some(ExitReason::graceful())
            },
            OsSignal::Quit => {
                ctrl.begin_drain(ShutdownKind::Immediate);
                Some(ExitReason::immediate())
            },
            OsSignal::Hangup => {
                ctrl.begin_drain(ShutdownKind::Reload);
                None
            },
        }
    }

    /// When a signal handler cannot be installed: a graceful drain is begun
    /// on `ctrl`, and a graceful exit is the reason returned.
    pub fn on_install_failure(&self, ctrl: &mut DrainController) -> (r: ExitReason)
        ensures
            final(ctrl)@ == drain_view_after_begin(old(ctrl)@, ShutdownKind::Graceful),
            r == (ExitReason { kind: ShutdownKind::Graceful, should_exit: true }),
    {
        ctrl.begin_drain(ShutdownKind::Graceful);
        ExitReason::graceful()
    }
}

/// Every return of the signal source has begun a drain of the returned
/// reason's kind: after an exit reason `r` comes back from a signal or from
/// a failed install, the controller's last trigger is `r.kind`, and it is
/// draining (graceful and immediate exits both drain).
pub proof fn law_signal_exit_begins_drain(v: DrainView, sig: OsSignal)
    ensures
        sig != OsSignal::Hangup ==> {
            let after = drain_view_after_begin(v, signal_kind(sig));
            &&& after.0 == Some(signal_kind(sig))
            &&& after.1 is Some
        },
        sig == OsSignal::Hangup ==> drain_view_after_begin(v, signal_kind(sig)).1 == v.1,
        drain_view_after_begin(v, ShutdownKind::Graceful).1 is Some,
{
}

/// How signals map to shutdown kinds: `SIGINT` and `SIGTERM` lead to the
/// same graceful drain, only `SIGQUIT` exits immediately, and only `SIGHUP`
/// reloads (and so is the only signal that does not start a drain).
pub proof fn law_signal_kinds(sig: OsSignal)
    ensures
        signal_kind(OsSignal::Interrupt) == signal_kind(OsSignal::Terminate),
        signal_kind(sig) == ShutdownKind::Graceful <==> (sig == OsSignal::Interrupt || sig == OsSignal::Terminate),
        signal_kind(sig) == ShutdownKind::Immediate <==> sig == OsSignal::Quit,
        signal_kind(sig) == ShutdownKind::Reload <==> sig == OsSignal::Hangup,
        signal_kind(sig).spec_causes_drain() <==> sig != OsSignal::Hangup,
{
}

} // verus!
