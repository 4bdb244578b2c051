//! File-change debouncing: a burst of editor saves becomes one restart.
use vstd::prelude::*;

verus! {

/// Debounce window, in milliseconds.
pub const DEBOUNCE_MS: u64 = 400;

/// Whether a change observed at `now_ms` schedules a restart, given the time
/// of the last one (`None` if none yet): yes unless the last one is less than
/// `debounce_ms` ago (a clock that went backwards counts as no time passed).
pub fn should_fire(last_fire_ms: Option<u64>, now_ms: u64, debounce_ms: u64) -> (r: bool)
    ensures
        r == match last_fire_ms {
            Some(t) => (if now_ms >= t { now_ms - t } else { 0 }) >= debounce_ms,
            None => true,
        },
{
    match last_fire_ms {
        Some(t) => now_ms.saturating_sub(t) >= debounce_ms,
        None => true,
    }
}

/// The pod a change event restarts: round-robin over the pods (at least one).
pub fn rolling_target(event_index: usize, pod_count: usize) -> (r: usize)
    ensures
        r as int == event_index as int % (if pod_count == 0 { 1 } else { pod_count as int }),
{
    let n = if pod_count == 0 { 1 } else { pod_count };
    event_index % n
}

/// The kinds of file-system event the watcher is told about.
#[derive(Debug, Clone, Copy, PartialEq, Eq, Structural)]
pub enum FsEventKind {
    /// A file or directory was created.
    Create,
    /// A file's contents or metadata changed.
    Modify,
    /// A file or directory was removed.
    Remove,
    /// A file was only read or opened.
    Access,
    /// Anything else.
    Other,
}

/// Events that change what is on disk (and so may call for a restart).
pub open spec fn is_change(k: FsEventKind) -> bool {
    k == FsEventKind::Create || k == FsEventKind::Modify || k == FsEventKind::Remove
}

/// Whether an event of kind `kind` at `now` signals a restart, given when
/// the last signal was (`state.0`) and the debounce window (`state.1`): only
/// changes count, and only once the window since the last signal has passed.
pub open spec fn fires(state: (Option<u64>, u64), kind: FsEventKind, now: u64) -> bool {
    is_change(kind) && match state.0 {
        Some(t) => (if now >= t { now - t } else { 0 }) >= state.1,
        None => true,
    }
}

/// Coalesces a burst of change events into one restart signal.
pub struct ChangeDebouncer {
    last_fire_ms: Option<u64>,
    debounce_ms: u64,
}

impl View for ChangeDebouncer {
    type V = (Option<u64>, u64);

    /// When a restart was last signalled, and the debounce window (ms).
    closed spec fn view(&self) -> (Option<u64>, u64) {
        (self.last_fire_ms, self.debounce_ms)
    }
}

impl ChangeDebouncer {
    /// Nothing signalled yet.
    pub fn new(debounce_ms: u64) -> (r: ChangeDebouncer)
        ensures
            r@ == (None::<u64>, debounce_ms),
    {
        ChangeDebouncer { last_fire_ms: None, debounce_ms }
    }

    /// An event of kind `kind` observed at `now_ms`: whether to signal a
    /// restart. Only changes count, and only when the last signal is at
    /// least the debounce window ago; a signal is remembered.
    pub fn on_event(&mut self, kind: FsEventKind, now_ms: u64) -> (r: bool)
        ensures
            r == fires(old(self)@, kind, now_ms),
            r ==> final(self)@ == (Some(now_ms), old(self)@.1),
            !r ==> final(self)@ == old(self)@,
    {
        let change = match kind {
            FsEventKind::Create => true,
            FsEventKind::Modify => true,
            FsEventKind::Remove => true,
            FsEventKind::Access => false,
            FsEventKind::Other => false,
        };
        if change && should_fire(self.last_fire_ms, now_ms, self.debounce_ms) {
            self.last_fire_ms = Some(now_ms);
            true
        } else {
            false
        }
    }
}

/// Signals are spaced out: once a restart was signalled at `t`, a change at
/// `now` (not before `t`) signals again exactly when at least the debounce
/// window has passed, and an event that is no change never signals.
pub proof fn law_debounce_spacing(t: u64, debounce: u64, kind: FsEventKind, now: u64)
    requires
        t <= now,
    ensures
        fires((Some(t), debounce), kind, now) <==> (is_change(kind) && now - t >= debounce),
        !is_change(kind) ==> !fires((Some(t), debounce), kind, now),
{
}

} // verus!
