use malkuth::hooks::{OsSignal, SignalExitSource};
use malkuth::{DrainController, ExitReason, ShutdownKind};

#[test]
fn controller_starts_inactive() {
    let c = DrainController::new();
    assert_eq!(c.kind(), None);
    assert!(!c.is_draining());
}

#[test]
fn begin_drain_sets_state() {
    let mut c = DrainController::new();
    c.begin_drain(ShutdownKind::Graceful);
    assert!(c.is_draining());
    assert_eq!(c.kind(), Some(ShutdownKind::Graceful));
}

#[test]
fn reload_does_not_drain() {
    let mut c = DrainController::new();
    c.begin_drain(ShutdownKind::Reload);
    assert!(!c.is_draining());
    assert_eq!(c.kind(), Some(ShutdownKind::Reload));
    c.clear_drain();
    assert_eq!(c.kind(), None);
}

#[test]
fn drain_outcome_after_reload_keeps_draining() {
    let mut c = DrainController::new();
    assert_eq!(c.drain_outcome(), None);
    c.begin_drain(ShutdownKind::Immediate);
    assert_eq!(c.drain_outcome(), Some(ShutdownKind::Immediate));
    c.begin_drain(ShutdownKind::Reload);
    assert!(c.is_draining());
    assert_eq!(c.drain_outcome(), Some(ShutdownKind::Immediate));
    assert_eq!(c.signal_outcome(), Some(ShutdownKind::Reload));
}

#[test]
fn drain_keeps_its_first_cause() {
    let mut c = DrainController::new();
    c.begin_drain(ShutdownKind::Graceful);
    c.begin_drain(ShutdownKind::Reload);
    c.begin_drain(ShutdownKind::Immediate);
    assert_eq!(c.drain_outcome(), Some(ShutdownKind::Graceful));
    assert_eq!(c.kind(), Some(ShutdownKind::Immediate));
    c.clear_drain();
    assert_eq!(c.drain_outcome(), None);
}

#[test]
fn kind_codes_roundtrip() {
    for k in [ShutdownKind::Graceful, ShutdownKind::Immediate, ShutdownKind::Reload] {
        assert_eq!(ShutdownKind::from_u8(k.to_u8()), Some(k));
    }
    assert_eq!(ShutdownKind::from_u8(0), None);
    assert_eq!(ShutdownKind::from_u8(9), None);
    assert!(ShutdownKind::Graceful.causes_drain());
    assert!(ShutdownKind::Immediate.causes_drain());
    assert!(!ShutdownKind::Reload.causes_drain());
}

#[test]
fn exit_reasons_and_signals() {
    assert_eq!(ExitReason::graceful(), ExitReason { kind: ShutdownKind::Graceful, should_exit: true });
    assert_eq!(ExitReason::immediate(), ExitReason { kind: ShutdownKind::Immediate, should_exit: true });
    assert_eq!(ExitReason::reload(), ExitReason { kind: ShutdownKind::Reload, should_exit: false });
    let s = SignalExitSource;
    let mut c = DrainController::new();
    assert_eq!(s.on_signal(OsSignal::Hangup, &mut c), None);
    assert_eq!(c.kind(), Some(ShutdownKind::Reload));
    assert!(!c.is_draining());
    assert_eq!(s.on_signal(OsSignal::Terminate, &mut c), Some(ExitReason::graceful()));
    assert_eq!(c.drain_outcome(), Some(ShutdownKind::Graceful));
    let mut q = DrainController::new();
    assert_eq!(s.on_signal(OsSignal::Quit, &mut q), Some(ExitReason::immediate()));
    assert_eq!(q.drain_outcome(), Some(ShutdownKind::Immediate));
    let mut f = DrainController::new();
    assert_eq!(s.on_install_failure(&mut f), ExitReason::graceful());
    assert!(f.is_draining());
    assert_eq!(f.kind(), Some(ShutdownKind::Graceful));
}

#[test]
fn default_heartbeat_report_is_empty() {
    let r = malkuth::HeartbeatReport::default();
    assert!(r.beat.is_none());
    assert_eq!(r.next_after, std::time::Duration::ZERO);
}
