//! Supervision decisions for child-process workers: whether an exited worker
//! is started again (OTP restart policies), the sliding-window restart budget
//! with its cooldown, and the status snapshot reported for each worker. The
//! processes themselves are spawned and awaited by the runtime.
use vstd::prelude::*;
use crate::config::WorkerSpec;
use crate::types::{RestartPolicy, WorkerInfo, WorkerStatus};

verus! {

/// Whether a worker that exited is started again: `permanent` always,
/// `transient` only after an abnormal exit, `temporary` never.
pub open spec fn spec_restarts(policy: RestartPolicy, clean_exit: bool) -> bool {
    match policy {
        RestartPolicy::Permanent => true,
        RestartPolicy::Transient => !clean_exit,
        RestartPolicy::Temporary => false,
    }
}

/// Whether a worker with `policy` that exited (cleanly or not) is restarted.
pub fn restarts(policy: RestartPolicy, clean_exit: bool) -> (r: bool)
    ensures
        r == spec_restarts(policy, clean_exit),
{
    match policy {
        RestartPolicy::Permanent => true,
        RestartPolicy::Transient => !clean_exit,
        RestartPolicy::Temporary => false,
    }
}

/// The restarts among `times` that fall inside the window of `window` ms
/// ending at `now` (those at or after `now - window`).
pub open spec fn in_window(times: Seq<u64>, now: u64, window: u64) -> Seq<u64>
    decreases times.len(),
{
    if times.len() == 0 {
        Seq::empty()
    } else if times.last() as int >= now as int - window as int {
        in_window(times.drop_last(), now, window).push(times.last())
    } else {
        in_window(times.drop_last(), now, window)
    }
}

/// How many restarts a worker may have within a sliding window before its
/// restarts are held back for a cooldown.
pub struct RestartBudget {
    max_restarts: u32,
    window_ms: u64,
    cooldown_ms: u64,
    recent: Vec<u64>,
}

impl View for RestartBudget {
    /// (restarts allowed per window, window, cooldown, times of the restarts
    /// still inside some window, oldest first).
    type V = (u32, u64, u64, Seq<u64>);

    closed spec fn view(&self) -> (u32, u64, u64, Seq<u64>) {
        (self.max_restarts, self.window_ms, self.cooldown_ms, self.recent@)
    }
}

/// The decision on a wanted restart.
#[derive(Debug, Clone, Copy, PartialEq, Eq, Structural)]
pub enum RestartGate {
    /// Restart now.
    Go,
    /// The budget is spent: wait this many milliseconds, then ask again.
    CoolDown(u64),
}

impl RestartBudget {
    /// A budget of `max_restarts` per `window_ms`, with `cooldown_ms` of
    /// cooldown once it is spent; no restart recorded yet.
    pub fn new(max_restarts: u32, window_ms: u64, cooldown_ms: u64) -> (r: RestartBudget)
        ensures
            r@ == (max_restarts, window_ms, cooldown_ms, Seq::<u64>::empty()),
    {
        RestartBudget { max_restarts, window_ms, cooldown_ms, recent: Vec::new() }
    }

    /// A restart wanted at `now_ms`: allowed while fewer than the allowed
    /// number of restarts fall inside the window ending now (the restart is
    /// then recorded), else held back for the cooldown. Restarts that left
    /// the window are forgotten either way.
    pub fn request(&mut self, now_ms: u64) -> (r: RestartGate)
        ensures
            final(self)@.0 == old(self)@.0,
            final(self)@.1 == old(self)@.1,
            final(self)@.2 == old(self)@.2,
            ({
                let kept = in_window(old(self)@.3, now_ms, old(self)@.1);
                if kept.len() < old(self)@.0 {
                    r == RestartGate::Go && final(self)@.3 == kept.push(now_ms)
                } else {
                    r == RestartGate::CoolDown(old(self)@.2) && final(self)@.3 == kept
                }
            }),
    {
        let ghost old_recent = self.recent@;
        let mut kept: Vec<u64> = Vec::new();
        let mut i: usize = 0;
        while i < self.recent.len()
            invariant
                i <= self.recent@.len(),
                self.recent@ == old_recent,
                kept@ == in_window(old_recent.take(i as int), now_ms, self.window_ms),
            decreases self.recent@.len() - i,
        {
            let t = self.recent[i];
            proof {
                assert(old_recent.take(i + 1).drop_last() =~= old_recent.take(i as int));
                assert(old_recent.take(i + 1).last() == t);
            }
            if now_ms <= self.window_ms || t >= now_ms - self.window_ms {
                kept.push(t);
            }
            i = i + 1;
        }
        assert(old_recent.take(old_recent.len() as int) =~= old_recent);
        if (kept.len() as u64) < (self.max_restarts as u64) {
            kept.push(now_ms);
            self.recent = kept;
            RestartGate::Go
        } else {
            self.recent = kept;
            RestartGate::CoolDown(self.cooldown_ms)
        }
    }
}

/// Forgetting restarts that left the window never adds any.
pub proof fn lemma_in_window_shrinks(times: Seq<u64>, now: u64, window: u64)
    ensures
        in_window(times, now, window).len() <= times.len(),
    decreases times.len(),
{
    if times.len() > 0 {
        lemma_in_window_shrinks(times.drop_last(), now, window);
    }
}

/// The budget is never exceeded: when at most the allowed number of restarts
/// is on record, the same holds after any request, granted or not.
pub proof fn law_restart_budget_bounded(max: u32, recent: Seq<u64>, now: u64, window: u64)
    requires
        recent.len() <= max,
    ensures
        ({
            let kept = in_window(recent, now, window);
            &&& kept.len() <= max
            &&& kept.len() < max ==> kept.push(now).len() <= max
        }),
{
    lemma_in_window_shrinks(recent, now, window);
}

/// The snapshot of a worker that is just being started.
pub fn starting_info(spec: &WorkerSpec) -> (r: WorkerInfo)
    ensures
        r.id@ == spec.id@,
        r.kind@ == spec.kind@,
        r.status == WorkerStatus::Starting,
        r.restart_policy == spec.restart_policy,
        r.restart_count == 0,
        r.last_error is None,
{
    WorkerInfo {
        id: spec.id.clone(),
        kind: spec.kind.clone(),
        status: WorkerStatus::Starting,
        restart_policy: spec.restart_policy,
        restart_count: 0,
        last_error: None,
    }
}

/// The worker's process is up.
pub fn mark_running(info: &mut WorkerInfo)
    ensures
        *final(info) == (WorkerInfo { status: WorkerStatus::Running, ..*old(info) }),
{
    info.status = WorkerStatus::Running;
}

/// The worker's process exited (cleanly or with `error`): when it is
/// restarted it is starting again with one more restart counted (the count
/// saturates); otherwise it stays stopped after a clean exit, failed after
/// an abnormal one. The error, if any, is kept as the last error.
pub fn record_exit(info: &mut WorkerInfo, clean_exit: bool, error: Option<String>, restarting: bool)
    ensures
        final(info).id == old(info).id,
        final(info).kind == old(info).kind,
        final(info).restart_policy == old(info).restart_policy,
        final(info).status == (if restarting {
            WorkerStatus::Starting
        } else if clean_exit {
            WorkerStatus::Stopped
        } else {
            WorkerStatus::Failed
        }),
        final(info).restart_count == (if restarting && old(info).restart_count < u32::MAX {
            (old(info).restart_count + 1) as u32
        } else {
            old(info).restart_count
        }),
        final(info).last_error == (match error {
            Some(e) => Some(e),
            None => old(info).last_error,
        }),
{
    if restarting {
        info.status = WorkerStatus::Starting;
        if info.restart_count < u32::MAX {
            info.restart_count = info.restart_count + 1;
        }
    } else if clean_exit {
        info.status = WorkerStatus::Stopped;
    } else {
        info.status = WorkerStatus::Failed;
    }
    match error {
        Some(e) => {
            info.last_error = Some(e);
        },
        None => {},
    }
}

} // verus!
