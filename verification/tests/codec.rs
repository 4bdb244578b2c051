use malkuth::codec::{encode_frame, take_frame, FrameError, FramedConn};

#[test]
fn take_frame_parses_complete_line() {
    let mut buf = b"{\"id\":1}\n".to_vec();
    let v = take_frame(&mut buf).unwrap().unwrap();
    assert_eq!(v["id"], 1);
    assert!(buf.is_empty());
}

#[test]
fn take_frame_none_when_incomplete() {
    let mut buf = b"{\"id\":1}".to_vec();
    assert!(take_frame(&mut buf).is_none());
}

#[test]
fn take_frame_invalid_json_is_error() {
    let mut buf = b"{bad\n".to_vec();
    let r = take_frame(&mut buf).unwrap();
    assert!(r.is_err());
    assert!(matches!(r, Err(FrameError::Malformed(_))));
    assert!(buf.is_empty());
}

#[test]
fn take_frame_blank_line_is_null_and_rest_stays() {
    let mut buf = b" \t\r\n{\"a\":2}\n{\"b\"".to_vec();
    assert_eq!(take_frame(&mut buf).unwrap().unwrap(), serde_json::Value::Null);
    assert_eq!(buf, b"{\"a\":2}\n{\"b\"".to_vec());
    assert_eq!(take_frame(&mut buf).unwrap().unwrap()["a"], 2);
    assert_eq!(buf, b"{\"b\"".to_vec());
    assert!(take_frame(&mut buf).is_none());
    assert_eq!(buf, b"{\"b\"".to_vec());
}

#[test]
fn framed_messages_roundtrip() {
    let mut m = serde_json::Map::new();
    m.insert("jsonrpc".to_string(), serde_json::Value::from("2.0"));
    m.insert("id".to_string(), serde_json::Value::from(1));
    m.insert("method".to_string(), serde_json::Value::from("ping\nline"));
    let msg = serde_json::Value::Object(m);
    let mut conn = FramedConn::new(());
    assert!(matches!(conn.on_peer_closed(), Ok(None)));
    let frame = encode_frame(&msg).unwrap();
    assert_eq!(*frame.last().unwrap(), b'\n');
    conn.feed(b"\nnull\n");
    conn.feed(&frame[..3]);
    assert!(conn.next_message().is_none());
    assert!(matches!(conn.on_peer_closed(), Err(FrameError::ClosedMidFrame)));
    conn.feed(&frame[3..]);
    let got = conn.next_message().unwrap().unwrap();
    assert_eq!(got, msg);
    assert!(matches!(conn.on_peer_closed(), Ok(None)));
}

#[test]
fn framed_roundtrip() {
    // client -> server and server -> client, each through its own frame buffer
    let mut s = FramedConn::new(());
    let mut c = FramedConn::new(());
    let msg: serde_json::Value = serde_json::from_str(r#"{"jsonrpc":"2.0","id":1,"method":"ping"}"#).unwrap();
    s.feed(&encode_frame(&msg).unwrap());
    let got = s.next_message().map(|r| r.unwrap());
    assert_eq!(got, Some(msg.clone()));
    let reply: serde_json::Value = serde_json::from_str(r#"{"jsonrpc":"2.0","id":1,"result":"pong"}"#).unwrap();
    c.feed(&encode_frame(&reply).unwrap());
    let got2 = c.next_message().map(|r| r.unwrap());
    assert_eq!(got2, Some(reply));
}

#[test]
fn next_value_passes_null_through_and_skips_blank_lines() {
    let mut conn = FramedConn::new(());
    conn.feed(b"  \nnull\n\r\n{\"a\":1}\n{x\n");
    assert_eq!(conn.next_value().unwrap().unwrap(), serde_json::Value::Null);
    assert_eq!(conn.next_value().unwrap().unwrap()["a"], 1);
    assert!(matches!(conn.next_value(), Some(Err(FrameError::Malformed(_)))));
    assert!(conn.next_value().is_none());
    assert!(matches!(conn.on_peer_closed(), Ok(None)));
}

#[test]
fn next_message_skips_null_frames() {
    let mut conn = FramedConn::new(());
    conn.feed(b"null\n\n{\"b\":2}\n");
    assert_eq!(conn.next_message().unwrap().unwrap()["b"], 2);
    assert!(conn.next_message().is_none());
}
