use malkuth::client::{conn_id_base, PendingCalls};
use malkuth::hooks::ProbeSink;
use malkuth::jsonrpc::{
    call_outcome, lifecycle_call, pool_slot, reply_for, Id, LifecycleReply, Request, Response, RpcError,
    METHOD_NOT_FOUND, PARSE_ERROR, SERVER_ERROR,
};
use malkuth::probes::{readyz_status_code, ProbeState};
use malkuth::router::Router;
use malkuth::{DrainController, DrainState, ShutdownKind};
use serde_json::Value;

#[test]
fn rpc_error_constructors() {
    let e = RpcError::method_not_found("Foo.Bar");
    assert_eq!(e.code, METHOD_NOT_FOUND);
    assert_eq!(e.message, "method not found: Foo.Bar");
    assert!(e.data.is_none());
    assert_eq!(RpcError::parse_error("x".into()).code, PARSE_ERROR);
    assert_eq!(RpcError::server("y".into()).code, SERVER_ERROR);
    assert_eq!(RpcError::invalid_params("z".into()).code, -32602);
}

#[test]
fn requests_and_replies() {
    let call = Request::call(7, "ping", Value::Null);
    assert!(call.is_call());
    assert_eq!(call.jsonrpc, "2.0");
    assert!(matches!(call.id, Some(Id::Num(7))));
    let note = Request::notify("Lifecycle.Heartbeat", Value::Null);
    assert!(!note.is_call());
    assert!(reply_for(None, Ok(Value::from("pong"))).is_none());
    let r = reply_for(Some(Id::Num(3)), Ok(Value::from("pong"))).unwrap();
    assert!(r.id.same_as(&Id::Num(3)));
    assert_eq!(r.result, Some(Value::from("pong")));
    let r = reply_for(Some(Id::Str("k".into())), Err(RpcError::server("boom".into()))).unwrap();
    assert!(r.result.is_none());
    assert_eq!(r.error.unwrap().message, "boom");
}

#[test]
fn client_outcome_matches_ids() {
    let other = Response::ok(Id::Num(2), Value::from(1));
    assert!(call_outcome(other, 1).is_none());
    let ok = Response::ok(Id::Num(1), Value::from("pong"));
    assert_eq!(call_outcome(ok, 1).unwrap().unwrap(), Value::from("pong"));
    let empty = Response { jsonrpc: "2.0".into(), id: Id::Num(1), result: None, error: None };
    assert_eq!(call_outcome(empty, 1).unwrap().unwrap(), Value::Null);
    let err = Response::err(Id::Num(1), RpcError::server("no".into()));
    assert_eq!(call_outcome(err, 1).unwrap().unwrap_err().message, "no");
}

#[test]
fn pending_calls_route_replies() {
    assert_eq!(conn_id_base(0), 1);
    assert_eq!(conn_id_base(2), 2_000_001);
    let mut p: PendingCalls<&'static str> = PendingCalls::new(10);
    assert_eq!(p.next_id(), 10);
    let req = p.next_request("ping", Value::Null);
    assert!(matches!(req.id, Some(Id::Num(10))));
    assert_eq!(req.method, "ping");
    p.track(10, "caller-a");
    let req2 = p.next_request("Lifecycle.Status", Value::Null);
    assert!(matches!(req2.id, Some(Id::Num(11))));
    p.track(11, "caller-b");
    assert!(p.on_response(Response::ok(Id::Num(99), Value::Null)).is_none());
    assert!(p.on_response(Response::ok(Id::Str("10".into()), Value::Null)).is_none());
    let (who, out) = p.on_response(Response::ok(Id::Num(11), Value::from(5))).unwrap();
    assert_eq!(who, "caller-b");
    assert_eq!(out.unwrap(), Value::from(5));
    assert!(p.on_response(Response::ok(Id::Num(11), Value::from(5))).is_none());
    let (who, out) = p.on_response(Response::err(Id::Num(10), RpcError::server("x".into()))).unwrap();
    assert_eq!(who, "caller-a");
    assert_eq!(out.unwrap_err().message, "x");
}

#[test]
fn pool_slots_round_robin() {
    assert_eq!(pool_slot(0, 3), 0);
    assert_eq!(pool_slot(4, 3), 1);
    assert_eq!(pool_slot(u64::MAX, 2), 1);
}

fn always_ok() -> bool {
    true
}

fn always_bad() -> bool {
    false
}

#[test]
fn probe_state_readiness() {
    let mut ps: ProbeState<fn() -> bool> = ProbeState::new("1.2.3".to_string());
    let r = ps.ready();
    assert!(r.ready && !r.draining && r.dependencies.is_empty() && r.generation.is_none());
    assert_eq!(readyz_status_code(&r), 200);
    ps.add_dependency("db".to_string(), always_ok as fn() -> bool);
    ps.add_dependency("cache".to_string(), always_bad as fn() -> bool);
    ps.set_generation(Some(4));
    let r = ps.ready();
    assert!(!r.ready);
    assert_eq!(r.dependencies.len(), 2);
    assert_eq!(r.dependencies[0].name, "db");
    assert!(r.dependencies[0].ok && r.dependencies[0].detail.is_none());
    assert_eq!(r.dependencies[1].detail.as_deref(), Some("unhealthy"));
    assert_eq!(r.generation, Some(4));
    assert_eq!(readyz_status_code(&r), 503);
    let h = ps.health(77);
    assert!(h.alive);
    assert_eq!(h.pid, 77);
    assert_eq!(h.version, "1.2.3");
}

#[test]
fn probe_state_drain_bit() {
    let mut ps: ProbeState<fn() -> bool> = ProbeState::new("v".to_string());
    ps.set_drain_state(DrainState::Reloading);
    let r = ps.ready();
    assert!(r.draining && !r.ready);
    ps.set_drain_state(DrainState::default());
    assert!(ps.ready().ready);
    assert!(always_ok() && !always_bad());
}

#[test]
fn lifecycle_methods_without_probe() {
    let mut d = DrainController::new();
    let none: Option<&ProbeState<fn() -> bool>> = None;
    match lifecycle_call("Lifecycle.Status", &mut d, none, 9) {
        Some(LifecycleReply::Status(s)) => assert!(s.ready && !s.draining),
        other => panic!("unexpected {other:?}"),
    }
    match lifecycle_call("Lifecycle.Health", &mut d, none, 9) {
        Some(LifecycleReply::Health(h)) => {
            assert!(h.alive);
            assert_eq!(h.pid, 9);
            assert_eq!(h.uptime_secs, 0);
            assert_eq!(h.version, "unknown");
        },
        other => panic!("unexpected {other:?}"),
    }
    assert!(matches!(lifecycle_call("Lifecycle.Reload", &mut d, none, 9), Some(LifecycleReply::Reloaded)));
    assert_eq!(d.kind(), Some(ShutdownKind::Reload));
    assert!(!d.is_draining());
    assert!(lifecycle_call("ping", &mut d, none, 9).is_none());
    match lifecycle_call("Lifecycle.Drain", &mut d, none, 9) {
        Some(LifecycleReply::Drained(r)) => assert!(r.accepted && r.draining),
        other => panic!("unexpected {other:?}"),
    }
    assert!(d.is_draining());
    assert_eq!(d.kind(), Some(ShutdownKind::Graceful));
    match lifecycle_call("Lifecycle.Status", &mut d, none, 9) {
        Some(LifecycleReply::Status(s)) => assert!(!s.ready && s.draining),
        other => panic!("unexpected {other:?}"),
    }
}

#[test]
fn lifecycle_methods_with_probe() {
    let mut d = DrainController::new();
    let mut ps: ProbeState<fn() -> bool> = ProbeState::new("2.0".to_string());
    ps.set_generation(Some(1));
    match lifecycle_call("Lifecycle.Status", &mut d, Some(&ps), 1) {
        Some(LifecycleReply::Status(s)) => assert_eq!(s.generation, Some(1)),
        other => panic!("unexpected {other:?}"),
    }
    match lifecycle_call("Lifecycle.Health", &mut d, Some(&ps), 1) {
        Some(LifecycleReply::Health(h)) => assert_eq!(h.version, "2.0"),
        other => panic!("unexpected {other:?}"),
    }
}

#[test]
fn dependencies_report_their_checks_in_registration_order() {
    let mut ps: ProbeState<fn() -> bool> = ProbeState::new("v".to_string());
    ps.add_dependency("db".to_string(), always_bad as fn() -> bool);
    ps.add_dependency("cache".to_string(), always_ok as fn() -> bool);
    let r = ps.ready();
    assert!(!r.ready && !r.draining);
    assert_eq!(r.dependencies.len(), 2);
    assert_eq!(r.dependencies[0].name, "db");
    assert!(!r.dependencies[0].ok);
    assert_eq!(r.dependencies[0].detail.as_deref(), Some("unhealthy"));
    assert_eq!(r.dependencies[1].name, "cache");
    assert!(r.dependencies[1].ok && r.dependencies[1].detail.is_none());
}

#[test]
fn lifecycle_status_with_probe_reflects_its_checks() {
    let mut d = DrainController::new();
    let mut ps: ProbeState<fn() -> bool> = ProbeState::new("3".to_string());
    ps.add_dependency("db".to_string(), always_bad as fn() -> bool);
    match lifecycle_call("Lifecycle.Status", &mut d, Some(&ps), 5) {
        Some(LifecycleReply::Status(s)) => {
            assert!(!s.ready && !s.draining);
            assert!(!s.dependencies[0].ok);
        },
        other => panic!("unexpected {other:?}"),
    }
    match lifecycle_call("Lifecycle.Health", &mut d, Some(&ps), 5) {
        Some(LifecycleReply::Health(h)) => assert!(h.alive && h.pid == 5 && h.version == "3"),
        other => panic!("unexpected {other:?}"),
    }
}

#[test]
fn router_replaces_handlers_and_reports_unknown_methods() {
    let r: Router<u32> = Router::new().route("a".to_string(), 1).route("b".to_string(), 2).route("a".to_string(), 3);
    assert_eq!(*r.lookup("a").unwrap(), 3);
    assert_eq!(*r.lookup("b").unwrap(), 2);
    let e = r.lookup("c").unwrap_err();
    assert_eq!(e.code, -32601);
    assert_eq!(e.message, "method not found: c");
    assert!(e.data.is_none());
}

#[test]
fn server_replies_once_per_request_in_order() {
    let ids = vec![Some(Id::Num(1)), None, Some(Id::Str("b".to_string())), None];
    let written: Vec<Response> = ids
        .iter()
        .map(|id| reply_for(id.clone(), Ok(Value::from(0))))
        .filter_map(|r| r)
        .collect();
    assert_eq!(written.len(), 2);
    assert_eq!(written[0].id, Id::Num(1));
    assert_eq!(written[1].id, Id::Str("b".to_string()));
}

#[test]
fn call_takes_the_first_reply_with_its_id() {
    let replies = vec![
        Response::ok(Id::Num(7), Value::from("other")),
        Response::err(Id::Num(8), RpcError::server("boom".to_string())),
        Response::ok(Id::Num(8), Value::from("late")),
    ];
    let taken = replies.into_iter().find_map(|r| call_outcome(r, 8)).unwrap();
    match taken {
        Err(e) => assert_eq!(e.message, "boom"),
        Ok(v) => panic!("unexpected {v:?}"),
    }
}
