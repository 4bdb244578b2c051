//! Transport addressing: which backend an address selects (`tcp://`,
//! `ws://`/`wss://`, `ipc:`), and how each backend reads its address. The
//! sockets themselves are opened by the runtime.
use vstd::prelude::*;
use vstd::string::*;
use crate::json::{json_from_bytes, json_parse};
use crate::text::{has_prefix, occurs_at, spec_split_once, starts_with, contains_text, str_split_once, str_strip_prefix, string_of};

verus! {

/// TCP transport (IPv4/IPv6 loopback or remote).
#[derive(Debug, Clone, Copy)]
pub struct TcpTransport;

/// WebSocket transport (plain `ws://`).
#[derive(Debug, Clone, Copy)]
pub struct WsTransport;

/// Local IPC transport (Unix domain sockets / named pipes).
#[derive(Debug, Clone, Copy)]
pub struct IpcTransport;

/// A transport that dispatches by URL scheme to the built-in backends.
#[derive(Debug, Clone, Copy)]
pub struct MultiTransport;

/// The built-in transport backends.
#[derive(Debug, Clone, Copy, PartialEq, Eq, Structural)]
pub enum TransportKind {
    /// `tcp://host:port` or bare `host:port`.
    Tcp,
    /// `ws://…` / `wss://…`.
    Ws,
    /// `ipc:/path` or `ipc:name`.
    Ipc,
}

/// `s` with `p` removed from its front when it starts with `p`.
pub open spec fn without_prefix(s: Seq<char>, p: Seq<char>) -> Seq<char> {
    if has_prefix(s, p) {
        s.skip(p.len() as int)
    } else {
        s
    }
}

/// The text before the first `/` (all of it when there is none).
pub open spec fn before_slash(s: Seq<char>) -> Seq<char> {
    match spec_split_once(s, '/') {
        Some((a, _)) => a,
        None => s,
    }
}

/// The backend an address selects.
pub open spec fn spec_pick(addr: Seq<char>) -> TransportKind {
    if has_prefix(addr, "ws://"@) || has_prefix(addr, "wss://"@) {
        TransportKind::Ws
    } else if has_prefix(addr, "ipc:"@) {
        TransportKind::Ipc
    } else {
        TransportKind::Tcp
    }
}

/// `addr` without a leading `ws://`, else without a leading `wss://`.
pub open spec fn spec_strip_ws_scheme(addr: Seq<char>) -> Seq<char> {
    if has_prefix(addr, "ws://"@) {
        addr.skip(5)
    } else {
        without_prefix(addr, "wss://"@)
    }
}

/// Strip an optional `tcp://` scheme prefix; pass the rest through.
pub fn strip(addr: &str) -> (r: &str)
    ensures
        r@ == without_prefix(addr@, "tcp://"@),
{
    match str_strip_prefix(addr, "tcp://") {
        Some(rest) => rest,
        None => addr,
    }
}

/// Strip an optional `ws://` or `wss://` scheme prefix.
pub fn strip_scheme(addr: &str) -> (r: &str)
    ensures
        r@ == spec_strip_ws_scheme(addr@),
{
    proof {
        reveal_strlit("ws://");
    }
    match str_strip_prefix(addr, "ws://") {
        Some(rest) => rest,
        None => match str_strip_prefix(addr, "wss://") {
            Some(rest) => rest,
            None => addr,
        },
    }
}

/// The part of `s` before the first `/` (all of it when there is none).
pub fn up_to_slash(s: &str) -> (r: &str)
    ensures
        r@ == before_slash(s@),
{
    match str_split_once(s, '/') {
        Some((a, _)) => a,
        None => s,
    }
}

/// Where a WebSocket listener binds: the `host:port` of the address, with
/// the scheme and any path dropped.
pub fn ws_listen_host(addr: &str) -> (r: String)
    ensures
        r@ == before_slash(spec_strip_ws_scheme(addr@)),
{
    string_of(up_to_slash(strip_scheme(addr)))
}

/// The URL a WebSocket client dials (`ws://` added when `addr` carries no
/// scheme) and the `host:port` it connects its TCP stream to.
pub open spec fn spec_split_ws(addr: Seq<char>) -> (Seq<char>, Seq<char>) {
    let url = if exists|i: int| occurs_at(addr, "://"@, i) { addr } else { "ws://"@ + addr };
    (before_slash(spec_strip_ws_scheme(url)), url)
}

/// Split a WebSocket address into the `host:port` to connect to and the
/// full URL.
pub fn split_ws(addr: &str) -> (r: (String, String))
    ensures
        (r.0@, r.1@) == spec_split_ws(addr@),
{
    let url = if contains_text(addr, "://") {
        string_of(addr)
    } else {
        let mut u = string_of("ws://");
        u.append(addr);
        u
    };
    let hp = string_of(up_to_slash(strip_scheme(url.as_str())));
    (hp, url)
}

/// A local-socket name: a filesystem path, or a short / namespaced name.
#[derive(Debug)]
pub enum IpcName {
    /// A filesystem socket path (`ipc:/full/path`).
    Path(String),
    /// A namespaced name (`ipc:name`).
    Namespaced(String),
}

/// The name an `ipc:` address denotes: the text after an optional `ipc:`, a
/// path when it starts with `/`, else a namespaced name.
pub fn ipc_name(addr: &str) -> (r: IpcName)
    ensures
        ({
            let s = without_prefix(addr@, "ipc:"@);
            match r {
                IpcName::Path(p) => has_prefix(s, "/"@) && p@ == s,
                IpcName::Namespaced(n) => !has_prefix(s, "/"@) && n@ == s,
            }
        }),
{
    let s = match str_strip_prefix(addr, "ipc:") {
        Some(rest) => rest,
        None => addr,
    };
    if starts_with(s, "/") {
        IpcName::Path(string_of(s))
    } else {
        IpcName::Namespaced(string_of(s))
    }
}

/// The stale socket file a listener removes before binding: the path of an
/// `ipc:/…` address (nothing for other addresses).
pub fn ipc_stale_socket(addr: &str) -> (r: Option<String>)
    ensures
        match r {
            Some(p) => has_prefix(addr@, "ipc:"@) && has_prefix(p@, "/"@) && p@ == addr@.skip(4),
            None => !(has_prefix(addr@, "ipc:"@) && has_prefix(addr@.skip(4), "/"@)),
        },
{
    proof {
        reveal_strlit("ipc:");
    }
    match str_strip_prefix(addr, "ipc:") {
        Some(p) => if starts_with(p, "/") {
            Some(string_of(p))
        } else {
            None
        },
        None => None,
    }
}

impl TcpTransport {
    /// `"tcp"`.
    pub fn name(&self) -> (r: &'static str)
        ensures
            r@ == "tcp"@,
    {
        "tcp"
    }
}

impl WsTransport {
    /// `"ws"`.
    pub fn name(&self) -> (r: &'static str)
        ensures
            r@ == "ws"@,
    {
        "ws"
    }
}

impl IpcTransport {
    /// `"ipc"`.
    pub fn name(&self) -> (r: &'static str)
        ensures
            r@ == "ipc"@,
    {
        "ipc"
    }
}

impl MultiTransport {
    /// `"multi"`.
    pub fn name(&self) -> (r: &'static str)
        ensures
            r@ == "multi"@,
    {
        "multi"
    }

    /// The backend `addr` selects: WebSocket for `ws://`/`wss://`, IPC for
    /// `ipc:`, TCP for everything else (including bare `host:port`).
    pub fn pick(&self, addr: &str) -> (r: TransportKind)
        ensures
            r == spec_pick(addr@),
    {
        if starts_with(addr, "ws://") || starts_with(addr, "wss://") {
            TransportKind::Ws
        } else if starts_with(addr, "ipc:") {
            TransportKind::Ipc
        } else {
            TransportKind::Tcp
        }
    }
}

/// A WebSocket frame as the connection reads it.
#[derive(Debug)]
pub enum WsFrame {
    /// A text frame (its UTF-8 bytes).
    Text(Vec<u8>),
    /// A binary frame.
    Binary(Vec<u8>),
    /// A ping.
    Ping,
    /// A pong.
    Pong,
    /// The peer closes the connection.
    Close,
    /// A raw frame of any other kind.
    Other,
}

/// What reading a frame yields for the message stream.
#[derive(Debug)]
pub enum WsStep {
    /// The peer closed: no more messages.
    Closed,
    /// Nothing to deliver; read the next frame.
    Skip,
    /// A message: the JSON value the frame carries, or why it does not parse.
    Message(Result<serde_json::Value, serde_json::Error>),
}

/// How a received WebSocket frame is handled: a close ends the stream;
/// pings, pongs and other frames are skipped; a text or binary frame carries
/// one JSON message.
pub fn ws_step(frame: WsFrame) -> (r: WsStep)
    ensures
        match frame {
            WsFrame::Close => r is Closed,
            WsFrame::Ping | WsFrame::Pong | WsFrame::Other => r is Skip,
            WsFrame::Text(b) | WsFrame::Binary(b) => match json_from_bytes(b@) {
                Some(v) => r matches WsStep::Message(Ok(m)) && m == v,
                None => r matches WsStep::Message(Err(_)),
            },
        },
{
    match frame {
        WsFrame::Close => WsStep::Closed,
        WsFrame::Ping => WsStep::Skip,
        WsFrame::Pong => WsStep::Skip,
        WsFrame::Other => WsStep::Skip,
        WsFrame::Text(b) => ws_message(b),
        WsFrame::Binary(b) => ws_message(b),
    }
}

/// The message a text or binary frame's bytes carry.
fn ws_message(bytes: Vec<u8>) -> (r: WsStep)
    ensures
        match json_from_bytes(bytes@) {
            Some(v) => r matches WsStep::Message(Ok(m)) && m == v,
            None => r matches WsStep::Message(Err(_)),
        },
{
    match json_parse(bytes.as_slice()) {
        Ok(v) => WsStep::Message(Ok(v)),
        Err(e) => WsStep::Message(Err(e)),
    }
}

/// Transport selection by scheme: every `ipc:` address selects IPC whatever
/// follows the colon, every `ws://` or `wss://` address selects WebSocket,
/// and any other address (a bare `host:port`, `tcp://...`) selects TCP.
pub proof fn law_pick_by_scheme(addr: Seq<char>)
    ensures
        has_prefix(addr, "ipc:"@) ==> spec_pick(addr) == TransportKind::Ipc,
        has_prefix(addr, "ws://"@) || has_prefix(addr, "wss://"@) ==> spec_pick(addr) == TransportKind::Ws,
        !has_prefix(addr, "ipc:"@) && !has_prefix(addr, "ws://"@) && !has_prefix(addr, "wss://"@) ==> spec_pick(addr)
            == TransportKind::Tcp,
{
    reveal_strlit("ipc:");
    reveal_strlit("ws://");
    reveal_strlit("wss://");
    if has_prefix(addr, "ipc:"@) {
        assert(addr[0] == addr.take(4)[0]);
        if has_prefix(addr, "ws://"@) {
            assert(addr[0] == addr.take(5)[0]);
        }
        if has_prefix(addr, "wss://"@) {
            assert(addr[0] == addr.take(6)[0]);
        }
    }
}

} // verus!
