use malkuth::app_args::{
    flag, health_reply, pods, port_base, rolling_ports, rolling_start, rolling_step, worker_command, worker_spec,
    RollingAction, RollingEvent, RollingPhase, RollingState, WorkerCommand,
};
use malkuth::config::{already_running_message, daemon_pid_file, recorded_pid, DaemonSettings};
use malkuth::mcp::{
    env_pair, parse_policy, probe_endpoints, probe_url, require_workers, status_ok, supervise_timed_out, tool_worker_spec,
};
use malkuth::pool::{pod_name_text, ReadyPods};
use malkuth::watcher::{rolling_target, should_fire, ChangeDebouncer, FsEventKind, DEBOUNCE_MS};
use malkuth::RestartPolicy;

fn args(v: &[&str]) -> Vec<String> {
    v.iter().map(|s| s.to_string()).collect()
}

#[test]
fn flags_in_both_spellings() {
    let a = args(&["app", "supervise", "--pods", "5", "--port-base=4000"]);
    assert_eq!(flag(&a, "--pods"), Some("5"));
    assert_eq!(flag(&a, "--port-base"), Some("4000"));
    assert_eq!(pods(&a), 5);
    assert_eq!(port_base(&a), 4000);
    let b = args(&["app", "--pods"]);
    assert_eq!(flag(&b, "--pods"), None);
    assert_eq!(pods(&b), 3);
    let c = args(&["app", "--podsx", "7", "--pods=x", "--port-base", "99999"]);
    assert_eq!(flag(&c, "--pods"), Some("x"));
    assert_eq!(pods(&c), 3);
    assert_eq!(port_base(&c), 0);
}

#[test]
fn worker_line_protocol() {
    assert_eq!(worker_command("ping\n"), WorkerCommand::Ping);
    assert_eq!(worker_command("  health \r\n"), WorkerCommand::Health);
    assert_eq!(worker_command("crash"), WorkerCommand::Crash);
    assert_eq!(worker_command("PING"), WorkerCommand::Unknown);
    assert_eq!(health_reply(3001, 2, 42), "port=3001;gen=2;pid=42\n");
}

#[test]
fn worker_specs_and_rolling_ports() {
    let s = worker_spec("pod-3001".to_string(), "/bin/app".to_string(), 3001, 1);
    assert_eq!(s.id, "pod-3001");
    assert_eq!(s.kind, "app");
    assert_eq!(s.args, vec!["worker".to_string()]);
    assert_eq!(s.env, vec![("PORT".to_string(), "3001".to_string()), ("GEN".to_string(), "1".to_string())]);
    assert_eq!(s.restart_policy, RestartPolicy::Permanent);
    let (g0, g1) = rolling_ports(3, 4000);
    assert_eq!(g0, vec![4001, 4002, 4003]);
    assert_eq!(g1, vec![4004, 4005, 4006]);
}

#[test]
fn mcp_tool_arguments() {
    assert_eq!(parse_policy(None), RestartPolicy::Permanent);
    assert_eq!(parse_policy(Some("  Transient ")), RestartPolicy::Transient);
    assert_eq!(parse_policy(Some("TEMPORARY")), RestartPolicy::Temporary);
    assert_eq!(parse_policy(Some("")), RestartPolicy::Permanent);
    assert_eq!(parse_policy(Some("bogus")), RestartPolicy::Permanent);
    assert_eq!(env_pair(" K =v=w"), Some(("K".to_string(), "v=w".to_string())));
    assert_eq!(env_pair("novalue"), None);
    let s = tool_worker_spec(
        "w1".into(),
        "svc".into(),
        "prog".into(),
        args(&["-x"]),
        args(&["A=1", "junk", " B =2"]),
        Some("temporary"),
    );
    assert_eq!(s.env, vec![("A".to_string(), "1".to_string()), ("B".to_string(), "2".to_string())]);
    assert_eq!(s.args, args(&["-x"]));
    assert_eq!(s.restart_policy, RestartPolicy::Temporary);
    assert_eq!(probe_endpoints(None), vec!["/healthz"]);
    assert_eq!(probe_endpoints(Some("ready")), vec!["/readyz"]);
    assert_eq!(probe_endpoints(Some("both")), vec!["/healthz", "/readyz"]);
    assert_eq!(probe_url("http://h:8080//", "/readyz"), "http://h:8080/readyz");
    assert_eq!(probe_url("http://h", "/healthz"), "http://h/healthz");
    assert!(status_ok(204));
    assert!(!status_ok(301));
}

#[test]
fn daemon_pid_file_handling() {
    assert_eq!(daemon_pid_file(None), "/tmp/malkuth-daemon.pid");
    assert_eq!(daemon_pid_file(Some("/run/x.pid".into())), "/run/x.pid");
    assert_eq!(recorded_pid(" 1234\n"), Some(1234));
    assert_eq!(recorded_pid("0"), None);
    assert_eq!(recorded_pid("-5"), None);
    assert_eq!(recorded_pid("garbage"), None);
    assert_eq!(recorded_pid("2147483648"), None);
    assert_eq!(
        already_running_message(77, "/tmp/d.pid"),
        "daemon already running (pid=77), pid_file=/tmp/d.pid"
    );
    let d = DaemonSettings::default();
    assert_eq!(d.host, "127.0.0.1");
    assert_eq!((d.rate_limit_window_secs, d.rate_limit_max_restarts, d.cooldown_secs), (60, 5, 30));
}

#[test]
fn ready_pods_become_backends() {
    assert_eq!(pod_name_text(12), "pod-12");
    let mut p = ReadyPods::new(3);
    assert_eq!(p.slots(), 3);
    assert!(p.backends(0x7f00_0001, false).is_empty());
    p.mark_ready(2, 3003);
    p.mark_ready(0, 3001);
    let b = p.backends(0x7f00_0001, false);
    assert_eq!(b.len(), 2);
    assert_eq!(b[0].id, "pod-0");
    assert_eq!(b[0].addr.port, 3001);
    assert_eq!(b[1].id, "pod-2");
    assert_eq!(b[1].addr.port, 3003);
    p.mark_gone(0);
    p.mark_gone(1);
    let b = p.backends(0x7f00_0001, false);
    assert_eq!(b.len(), 1);
    assert_eq!(b[0].id, "pod-2");
}

#[test]
fn change_events_are_debounced() {
    assert!(should_fire(None, 0, DEBOUNCE_MS));
    assert!(!should_fire(Some(100), 499, DEBOUNCE_MS));
    assert!(should_fire(Some(100), 500, DEBOUNCE_MS));
    assert!(!should_fire(Some(500), 100, DEBOUNCE_MS));
    let mut d = ChangeDebouncer::new(DEBOUNCE_MS);
    assert!(!d.on_event(FsEventKind::Access, 0));
    assert!(d.on_event(FsEventKind::Modify, 10));
    assert!(!d.on_event(FsEventKind::Create, 300));
    assert!(d.on_event(FsEventKind::Remove, 410));
    assert!(!d.on_event(FsEventKind::Other, 5000));
    assert_eq!(rolling_target(4, 3), 1);
    assert_eq!(rolling_target(4, 0), 0);
}

#[test]
fn rolling_update_brings_each_pod_up_before_draining_its_predecessor() {
    let (mut s, mut a) = rolling_start(2);
    let mut actions = vec![a];
    while a != RollingAction::Finish {
        let e = match a {
            RollingAction::DrainGen0(_) => RollingEvent::Drained,
            _ => RollingEvent::Healthy(true),
        };
        let (s2, a2) = rolling_step(s, e);
        s = s2;
        a = a2;
        actions.push(a);
    }
    assert_eq!(
        actions,
        vec![
            RollingAction::CheckGen0(0),
            RollingAction::CheckGen0(1),
            RollingAction::SpawnGen1(0),
            RollingAction::DrainGen0(0),
            RollingAction::SpawnGen1(1),
            RollingAction::DrainGen0(1),
            RollingAction::Finish,
        ]
    );
    assert_eq!(s, RollingState { pods: 2, phase: RollingPhase::Serving });
}

#[test]
fn rolling_update_aborts_on_an_unhealthy_pod() {
    let (s, a) = rolling_start(3);
    assert_eq!(a, RollingAction::CheckGen0(0));
    let (s, a) = rolling_step(s, RollingEvent::Healthy(false));
    assert_eq!(a, RollingAction::AbortGen0(0));
    assert_eq!(s.phase, RollingPhase::Failed);
    let gen1 = RollingState { pods: 3, phase: RollingPhase::AwaitingGen1(2) };
    let (s, a) = rolling_step(gen1, RollingEvent::Healthy(false));
    assert_eq!(a, RollingAction::AbortGen1(2));
    assert_eq!(s.phase, RollingPhase::Failed);
    let (s, a) = rolling_step(gen1, RollingEvent::Drained);
    assert_eq!(a, RollingAction::Ignore);
    assert_eq!(s, gen1);
    assert_eq!(rolling_start(0), (RollingState { pods: 0, phase: RollingPhase::Serving }, RollingAction::Finish));
}

#[test]
fn supervise_call_needs_workers_and_reports_timeouts() {
    assert_eq!(require_workers(Vec::new()).unwrap_err(), "at least one worker is required");
    let one = vec![worker_spec("w0".to_string(), "prog".to_string(), 3001, 0)];
    let kept = require_workers(one).unwrap();
    assert_eq!(kept.len(), 1);
    assert_eq!(kept[0].id, "w0");
    assert!(supervise_timed_out(true, 0));
    assert!(!supervise_timed_out(true, 2));
    assert!(!supervise_timed_out(false, 0));
}
