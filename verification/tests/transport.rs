use malkuth::app_args::{worker_command, WorkerCommand};
use malkuth::text::contains_text;
use malkuth::transport::{
    ipc_name, ipc_stale_socket, split_ws, strip, strip_scheme, ws_listen_host, ws_step, IpcName, MultiTransport,
    TcpTransport, TransportKind, WsFrame, WsStep,
};

#[test]
fn addresses_select_backends() {
    let m = MultiTransport;
    assert_eq!(m.pick("ws://h:1/x"), TransportKind::Ws);
    assert_eq!(m.pick("wss://h"), TransportKind::Ws);
    assert_eq!(m.pick("ipc:/tmp/s.sock"), TransportKind::Ipc);
    assert_eq!(m.pick("tcp://127.0.0.1:80"), TransportKind::Tcp);
    assert_eq!(m.pick("127.0.0.1:80"), TransportKind::Tcp);
    assert_eq!(m.name(), "multi");
    assert_eq!(TcpTransport.name(), "tcp");
    assert_eq!(strip("tcp://a:1"), "a:1");
    assert_eq!(strip("a:1"), "a:1");
    assert_eq!(strip_scheme("wss://h/p"), "h/p");
}

#[test]
fn ws_addresses() {
    assert_eq!(ws_listen_host("ws://127.0.0.1:0/rpc"), "127.0.0.1:0");
    assert_eq!(split_ws("127.0.0.1:9/x"), ("127.0.0.1:9".to_string(), "ws://127.0.0.1:9/x".to_string()));
    assert_eq!(split_ws("wss://h:1"), ("h:1".to_string(), "wss://h:1".to_string()));
}

#[test]
fn ipc_addresses() {
    assert!(matches!(ipc_name("ipc:/tmp/a.sock"), IpcName::Path(p) if p == "/tmp/a.sock"));
    assert!(matches!(ipc_name("ipc:svc"), IpcName::Namespaced(n) if n == "svc"));
    assert_eq!(ipc_stale_socket("ipc:/tmp/a.sock"), Some("/tmp/a.sock".to_string()));
    assert_eq!(ipc_stale_socket("ipc:svc"), None);
}

#[test]
fn ws_frames() {
    assert!(matches!(ws_step(WsFrame::Close), WsStep::Closed));
    assert!(matches!(ws_step(WsFrame::Ping), WsStep::Skip));
    assert!(matches!(ws_step(WsFrame::Pong), WsStep::Skip));
    match ws_step(WsFrame::Text(b"{\"a\":1}".to_vec())) {
        WsStep::Message(Ok(v)) => assert_eq!(v["a"], 1),
        other => panic!("unexpected {other:?}"),
    }
    match ws_step(WsFrame::Binary(b"[1,2]".to_vec())) {
        WsStep::Message(Ok(v)) => assert_eq!(v.as_array().unwrap().len(), 2),
        other => panic!("unexpected {other:?}"),
    }
    assert!(matches!(ws_step(WsFrame::Text(b"{bad".to_vec())), WsStep::Message(Err(_))));
}

#[test]
fn contains_text_finds_patterns_anywhere() {
    assert!(contains_text("tcp://127.0.0.1:1", "://"));
    assert!(contains_text("abc", ""));
    assert!(contains_text("", ""));
    assert!(!contains_text("ab", "abc"));
    assert!(contains_text("héllo wörld", "wö"));
    assert!(!contains_text("127.0.0.1:80", "://"));
    assert!(contains_text("aab", "ab"));
}

#[test]
fn trimmed_text_drops_unicode_whitespace() {
    assert_eq!(worker_command("\u{3000} ping\t\r\n"), WorkerCommand::Ping);
    assert_eq!(worker_command("\u{a0}health\u{2028}"), WorkerCommand::Health);
    assert_eq!(worker_command("pi ng"), WorkerCommand::Unknown);
}
