use malkuth::config::WorkerSpec;
use malkuth::supervisor::{mark_running, record_exit, restarts, starting_info, RestartBudget, RestartGate};
use malkuth::{RestartPolicy, WorkerStatus};

#[test]
fn restart_policies_follow_otp() {
    assert!(restarts(RestartPolicy::Permanent, true));
    assert!(restarts(RestartPolicy::Permanent, false));
    assert!(!restarts(RestartPolicy::Transient, true));
    assert!(restarts(RestartPolicy::Transient, false));
    assert!(!restarts(RestartPolicy::Temporary, false));
    assert_eq!(RestartPolicy::default(), RestartPolicy::Permanent);
}

#[test]
fn restart_budget_slides_and_cools_down() {
    let mut b = RestartBudget::new(2, 1_000, 500);
    assert_eq!(b.request(0), RestartGate::Go);
    assert_eq!(b.request(100), RestartGate::Go);
    assert_eq!(b.request(200), RestartGate::CoolDown(500));
    assert_eq!(b.request(900), RestartGate::CoolDown(500));
    // the restart at 0 has left the window ending at 1050
    assert_eq!(b.request(1_050), RestartGate::Go);
    assert_eq!(b.request(1_060), RestartGate::CoolDown(500));
    let mut none = RestartBudget::new(0, 1_000, 7);
    assert_eq!(none.request(0), RestartGate::CoolDown(7));
}

#[test]
fn worker_snapshots_track_exits() {
    let spec = WorkerSpec::new("w1".into(), "svc".into(), "prog".into()).policy(RestartPolicy::Transient);
    let mut info = starting_info(&spec);
    assert_eq!(info.status, WorkerStatus::Starting);
    assert_eq!(info.restart_count, 0);
    mark_running(&mut info);
    assert_eq!(info.status, WorkerStatus::Running);
    record_exit(&mut info, false, Some("exit 3".into()), true);
    assert_eq!(info.status, WorkerStatus::Starting);
    assert_eq!(info.restart_count, 1);
    assert_eq!(info.last_error.as_deref(), Some("exit 3"));
    record_exit(&mut info, true, None, false);
    assert_eq!(info.status, WorkerStatus::Stopped);
    assert_eq!(info.restart_count, 1);
    assert_eq!(info.last_error.as_deref(), Some("exit 3"));
    record_exit(&mut info, false, None, false);
    assert_eq!(info.status, WorkerStatus::Failed);
}
