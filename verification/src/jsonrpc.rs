//! JSON-RPC 2.0 envelopes: ids, error objects, requests and responses, and
//! the decisions the client and server take on them. Parameters and results
//! are JSON values carried through unchanged.
use vstd::prelude::*;
use vstd::string::*;
use crate::json::json_null;
use crate::hooks::ProbeSink;
use crate::lifecycle::{drain_view_after_begin, DrainController, ShutdownKind};
use crate::text::{string_of, text_eq};
use crate::types::methods;
use crate::types::{DrainResponse, HealthStatus, ReadyStatus};

verus! {

/// A JSON-RPC request/response id.
#[derive(Debug, Clone, PartialEq, Eq, Hash)]
pub enum Id {
    /// `null` id.
    Null,
    /// Numeric id.
    Num(u64),
    /// String id.
    Str(String),
}

/// Two ids are the same id (strings compared by their text).
pub open spec fn same_id(a: Id, b: Id) -> bool {
    match (a, b) {
        (Id::Null, Id::Null) => true,
        (Id::Num(x), Id::Num(y)) => x == y,
        (Id::Str(x), Id::Str(y)) => x@ == y@,
        _ => false,
    }
}

impl Id {
    /// Whether this is the numeric id `n`.
    pub fn is_num(&self, n: u64) -> (r: bool)
        ensures
            r == (*self matches Id::Num(m) && m == n),
    {
        match self {
            Id::Num(m) => *m == n,
            _ => false,
        }
    }

    /// Whether two ids are the same id.
    pub fn same_as(&self, other: &Id) -> (r: bool)
        ensures
            r == same_id(*self, *other),
    {
        match (self, other) {
            (Id::Null, Id::Null) => true,
            (Id::Num(x), Id::Num(y)) => *x == *y,
            (Id::Str(x), Id::Str(y)) => *x == *y,
            _ => false,
        }
    }

    /// A copy of this id.
    pub fn duplicate(&self) -> (r: Id)
        ensures
            r == *self,
    {
        match self {
            Id::Null => Id::Null,
            Id::Num(n) => Id::Num(*n),
            Id::Str(s) => Id::Str(s.clone()),
        }
    }
}

/// Standard "parse error".
pub const PARSE_ERROR: i32 = -32700;
/// Standard "method not found".
pub const METHOD_NOT_FOUND: i32 = -32601;
/// Standard "invalid params".
pub const INVALID_PARAMS: i32 = -32602;
/// Generic server error.
pub const SERVER_ERROR: i32 = -32000;

/// A JSON-RPC error object.
#[derive(Debug, Clone)]
pub struct RpcError {
    /// JSON-RPC error code.
    pub code: i32,
    /// Short error message.
    pub message: String,
    /// Optional structured data.
    pub data: Option<serde_json::Value>,
}

impl RpcError {
    /// Standard "method not found" (-32601): `method not found: {method}`.
    pub fn method_not_found(method: &str) -> (r: RpcError)
        ensures
            r.code == METHOD_NOT_FOUND,
            r.message@ == "method not found: "@ + method@,
            r.data is None,
    {
        let mut m = string_of("method not found: ");
        m.append(method);
        RpcError { code: METHOD_NOT_FOUND, message: m, data: None }
    }

    /// Standard "invalid params" (-32602).
    pub fn invalid_params(msg: String) -> (r: RpcError)
        ensures
            r.code == INVALID_PARAMS,
            r.message == msg,
            r.data is None,
    {
        RpcError { code: INVALID_PARAMS, message: msg, data: None }
    }

    /// Standard "parse error" (-32700).
    pub fn parse_error(msg: String) -> (r: RpcError)
        ensures
            r.code == PARSE_ERROR,
            r.message == msg,
            r.data is None,
    {
        RpcError { code: PARSE_ERROR, message: msg, data: None }
    }

    /// Generic server error (-32000).
    pub fn server(msg: String) -> (r: RpcError)
        ensures
            r.code == SERVER_ERROR,
            r.message == msg,
            r.data is None,
    {
        RpcError { code: SERVER_ERROR, message: msg, data: None }
    }
}

/// A JSON-RPC 2.0 request (id `None` ⇒ notification, no reply expected).
#[derive(Debug, Clone)]
pub struct Request {
    /// Always `"2.0"`.
    pub jsonrpc: String,
    /// `None` makes this a notification.
    pub id: Option<Id>,
    /// Method name.
    pub method: String,
    /// Parameters.
    pub params: serde_json::Value,
}

impl Request {
    /// Build a call with the numeric id `id`.
    pub fn call(id: u64, method: &str, params: serde_json::Value) -> (r: Request)
        ensures
            r.jsonrpc@ == "2.0"@,
            r.id == Some(Id::Num(id)),
            r.method@ == method@,
            r.params == params,
    {
        Request { jsonrpc: string_of("2.0"), id: Some(Id::Num(id)), method: string_of(method), params }
    }

    /// Build a notification (no id, no reply).
    pub fn notify(method: &str, params: serde_json::Value) -> (r: Request)
        ensures
            r.jsonrpc@ == "2.0"@,
            r.id is None,
            r.method@ == method@,
            r.params == params,
    {
        Request { jsonrpc: string_of("2.0"), id: None, method: string_of(method), params }
    }

    /// Whether a reply is expected (the request carries an id).
    pub fn is_call(&self) -> (r: bool)
        ensures
            r == self.id is Some,
    {
        self.id.is_some()
    }
}

/// A JSON-RPC 2.0 response.
#[derive(Debug, Clone)]
pub struct Response {
    /// Always `"2.0"`.
    pub jsonrpc: String,
    /// Echoed id of the matching request.
    pub id: Id,
    /// Present on success.
    pub result: Option<serde_json::Value>,
    /// Present on failure.
    pub error: Option<RpcError>,
}

impl Response {
    /// Successful response.
    pub fn ok(id: Id, result: serde_json::Value) -> (r: Response)
        ensures
            r.jsonrpc@ == "2.0"@,
            r.id == id,
            r.result == Some(result),
            r.error is None,
    {
        Response { jsonrpc: string_of("2.0"), id, result: Some(result), error: None }
    }

    /// Error response.
    pub fn err(id: Id, error: RpcError) -> (r: Response)
        ensures
            r.jsonrpc@ == "2.0"@,
            r.id == id,
            r.result is None,
            r.error == Some(error),
    {
        Response { jsonrpc: string_of("2.0"), id, result: None, error: Some(error) }
    }
}

/// The reply the server owes a request carrying `id` whose handler produced
/// `outcome`: nothing for a notification, else one response echoing the id,
/// with the result or the error.
pub open spec fn reply_fits(
    id: Option<Id>,
    outcome: Result<serde_json::Value, RpcError>,
    r: Option<Response>,
) -> bool {
    match id {
        None => r is None,
        Some(i) => r matches Some(resp) && resp.id == i && resp.jsonrpc@ == "2.0"@ && match outcome {
            Ok(v) => resp.result == Some(v) && resp.error is None,
            Err(e) => resp.result is None && resp.error == Some(e),
        },
    }
}

/// `resp` answers the call with numeric id `expected`.
pub open spec fn carries_id(resp: Response, expected: u64) -> bool {
    resp.id matches Id::Num(n) && n == expected
}

/// What a client waiting on call `expected` takes from `resp`: nothing
/// unless the response carries the call's id; then its error when present,
/// else its result (`null` when absent).
pub open spec fn call_fits(resp: Response, expected: u64, r: Option<Result<serde_json::Value, RpcError>>) -> bool {
    if !carries_id(resp, expected) {
        r is None
    } else {
        match resp.error {
            Some(e) => r == Some(Err::<serde_json::Value, RpcError>(e)),
            None => match resp.result {
                Some(v) => r == Some(Ok::<serde_json::Value, RpcError>(v)),
                None => r matches Some(Ok(v)) && crate::json::json_from_bytes(crate::json::null_text()) == Some(v),
            },
        }
    }
}

/// The responses written for a sequence of replies, in order.
pub open spec fn written(replies: Seq<Option<Response>>) -> Seq<Response>
    decreases replies.len(),
{
    if replies.len() == 0 {
        Seq::empty()
    } else {
        match replies.last() {
            Some(resp) => written(replies.drop_last()).push(resp),
            None => written(replies.drop_last()),
        }
    }
}

/// The ids of the requests (not notifications) among a sequence of frames'
/// ids, in order.
pub open spec fn request_ids(ids: Seq<Option<Id>>) -> Seq<Id>
    decreases ids.len(),
{
    if ids.len() == 0 {
        Seq::empty()
    } else {
        match ids.last() {
            Some(i) => request_ids(ids.drop_last()).push(i),
            None => request_ids(ids.drop_last()),
        }
    }
}

/// Serving a connection: when each request frame, in order, gets the reply
/// `reply_for` gives it, the server writes exactly one response per request
/// (notifications get none), in the requests' order, each echoing its
/// request's id.
pub proof fn law_server_answers_each_request(
    ids: Seq<Option<Id>>,
    outcomes: Seq<Result<serde_json::Value, RpcError>>,
    replies: Seq<Option<Response>>,
)
    requires
        ids.len() == outcomes.len() && ids.len() == replies.len(),
        forall|i: int| 0 <= i < ids.len() ==> #[trigger] reply_fits(ids[i], outcomes[i], replies[i]),
    ensures
        written(replies).len() == request_ids(ids).len(),
        forall|k: int| 0 <= k < written(replies).len() ==> #[trigger] written(replies)[k].id == request_ids(ids)[k],
    decreases ids.len(),
{
    if ids.len() > 0 {
        let n = ids.len() - 1;
        law_server_answers_each_request(ids.drop_last(), outcomes.drop_last(), replies.drop_last());
        assert(reply_fits(ids[n], outcomes[n], replies[n]));
        let w0 = written(replies.drop_last());
        let q0 = request_ids(ids.drop_last());
        assert forall|k: int| 0 <= k < written(replies).len() implies #[trigger] written(replies)[k].id == request_ids(ids)[k] by {
            if k < w0.len() {
                assert(written(replies)[k] == w0[k]);
                assert(request_ids(ids)[k] == q0[k]);
            }
        }
    }
}

/// A call takes its reply: reading responses in order and applying
/// `call_outcome` to each, the first response that yields an outcome is
/// exactly the first response carrying the call's id, and the outcome is
/// that response's error when it has one, else its result.
pub proof fn law_call_takes_its_reply(
    rs: Seq<Response>,
    outs: Seq<Option<Result<serde_json::Value, RpcError>>>,
    expected: u64,
    k: int,
)
    requires
        rs.len() == outs.len(),
        forall|i: int| 0 <= i < rs.len() ==> #[trigger] call_fits(rs[i], expected, outs[i]),
        0 <= k < rs.len(),
    ensures
        (outs[k] is Some && forall|j: int| 0 <= j < k ==> (#[trigger] outs[j]) is None) <==> (carries_id(rs[k], expected)
            && forall|j: int| 0 <= j < k ==> !carries_id(#[trigger] rs[j], expected)),
        outs[k] is Some ==> (rs[k].error matches Some(e) ==> outs[k] == Some(Err::<serde_json::Value, RpcError>(e))),
        outs[k] is Some ==> (rs[k].error is None ==> (rs[k].result matches Some(v) ==> outs[k] == Some(
            Ok::<serde_json::Value, RpcError>(v),
        ))),
{
    assert(call_fits(rs[k], expected, outs[k]));
    if forall|j: int| 0 <= j < k ==> (#[trigger] outs[j]) is None {
        assert forall|j: int| 0 <= j < k implies !carries_id(#[trigger] rs[j], expected) by {
            assert(call_fits(rs[j], expected, outs[j]));
            assert(outs[j] is None);
        }
    }
    if forall|j: int| 0 <= j < k ==> !carries_id(#[trigger] rs[j], expected) {
        assert forall|j: int| 0 <= j < k implies (#[trigger] outs[j]) is None by {
            assert(call_fits(rs[j], expected, outs[j]));
            assert(!carries_id(rs[j], expected));
        }
    }
}

/// What the server sends back for a request carrying `id` whose handler
/// produced `outcome`: nothing for a notification, else a success or error
/// response echoing the id.
pub fn reply_for(id: Option<Id>, outcome: Result<serde_json::Value, RpcError>) -> (r: Option<Response>)
    ensures
        reply_fits(id, outcome, r),
{
    match id {
        None => None,
        Some(i) => match outcome {
            Ok(v) => Some(Response::ok(i, v)),
            Err(e) => Some(Response::err(i, e)),
        },
    }
}

/// What a client waiting for the reply to call `expected` does with `resp`:
/// `None` to skip a reply to some other id, else the call's outcome — the
/// error when one is present, otherwise the result (`null` when absent).
pub fn call_outcome(resp: Response, expected: u64) -> (r: Option<Result<serde_json::Value, RpcError>>)
    ensures
        call_fits(resp, expected, r),
{
    if !resp.id.is_num(expected) {
        return None;
    }
    match resp.error {
        Some(e) => Some(Err(e)),
        None => match resp.result {
            Some(v) => Some(Ok(v)),
            None => Some(Ok(json_null())),
        },
    }
}

/// What a standard lifecycle method answers.
#[derive(Debug)]
pub enum LifecycleReply {
    /// `Lifecycle.Drain`: the drain was accepted.
    Drained(DrainResponse),
    /// `Lifecycle.Reload`: the reload was recorded (the reply is `null`).
    Reloaded,
    /// `Lifecycle.Status`: current readiness.
    Status(ReadyStatus),
    /// `Lifecycle.Health`: current liveness.
    Health(HealthStatus),
}

/// Handle a call of the standard lifecycle method `method` for the process
/// with id `pid`, against the shared drain controller and an optional probe.
///
/// `Lifecycle.Drain` begins a graceful drain and answers accepted/draining;
/// `Lifecycle.Reload` records a reload; `Lifecycle.Status` and
/// `Lifecycle.Health` answer what the probe reports (its `ready`, or its
/// `health` for `pid`), or without a probe a
/// minimal status (ready exactly when not draining, no dependencies, no
/// generation) and a minimal liveness (alive, zero uptime, version
/// `unknown`). Any other method is not a lifecycle method: `None`, nothing
/// changed.
pub fn lifecycle_call<P: ProbeSink>(
    method: &str,
    drain: &mut DrainController,
    probe: Option<&P>,
    pid: u32,
) -> (r: Option<LifecycleReply>)
    ensures
        method@ == methods::DRAIN@ ==> {
            &&& r == Some(LifecycleReply::Drained(DrainResponse { accepted: true, draining: true }))
            &&& final(drain)@ == drain_view_after_begin(old(drain)@, ShutdownKind::Graceful)
        },
        method@ == methods::RELOAD@ ==> {
            &&& r == Some(LifecycleReply::Reloaded)
            &&& final(drain)@ == drain_view_after_begin(old(drain)@, ShutdownKind::Reload)
        },
        method@ == methods::STATUS@ ==> {
            &&& r matches Some(LifecycleReply::Status(st))
            &&& probe is None ==> {
                &&& st.draining == old(drain)@.1 is Some
                &&& st.ready == !(old(drain)@.1 is Some)
                &&& st.dependencies@.len() == 0
                &&& st.generation is None
            }
            &&& probe matches Some(p) ==> call_ensures(P::ready, (p,), st)
            &&& final(drain)@ == old(drain)@
        },
        method@ == methods::HEALTH@ ==> {
            &&& r matches Some(LifecycleReply::Health(h))
            &&& probe is None ==> {
                &&& h.alive
                &&& h.pid == pid
                &&& h.uptime_secs == 0
                &&& h.version@ == "unknown"@
            }
            &&& probe matches Some(p) ==> call_ensures(P::health, (p, pid), h)
            &&& final(drain)@ == old(drain)@
        },
        method@ != methods::DRAIN@ && method@ != methods::RELOAD@ && method@ != methods::STATUS@
            && method@ != methods::HEALTH@ ==> r is None && final(drain)@ == old(drain)@,
{
    proof {
        reveal_strlit("Lifecycle.Drain");
        reveal_strlit("Lifecycle.Reload");
        reveal_strlit("Lifecycle.Status");
        reveal_strlit("Lifecycle.Health");
        assert(methods::DRAIN@ == "Lifecycle.Drain"@);
        assert(methods::RELOAD@ == "Lifecycle.Reload"@);
        assert(methods::STATUS@ == "Lifecycle.Status"@);
        assert(methods::HEALTH@ == "Lifecycle.Health"@);
        assert(methods::DRAIN@.len() != methods::RELOAD@.len());
        assert(methods::DRAIN@.len() != methods::STATUS@.len());
        assert(methods::DRAIN@.len() != methods::HEALTH@.len());
        assert(methods::RELOAD@[10] != methods::STATUS@[10]);
        assert(methods::RELOAD@[10] != methods::HEALTH@[10]);
        assert(methods::STATUS@[10] != methods::HEALTH@[10]);
    }
    if text_eq(method, methods::DRAIN) {
        drain.begin_drain(ShutdownKind::Graceful);
        Some(LifecycleReply::Drained(DrainResponse { accepted: true, draining: true }))
    } else if text_eq(method, methods::RELOAD) {
        drain.begin_drain(ShutdownKind::Reload);
        Some(LifecycleReply::Reloaded)
    } else if text_eq(method, methods::STATUS) {
        let status = match probe {
            Some(p) => p.ready(),
            None => {
                let draining = drain.is_draining();
                ReadyStatus { ready: !draining, draining, dependencies: Vec::new(), generation: None }
            },
        };
        Some(LifecycleReply::Status(status))
    } else if text_eq(method, methods::HEALTH) {
        let health = match probe {
            Some(p) => p.health(pid),
            None => HealthStatus { alive: true, pid, uptime_secs: 0, version: string_of("unknown") },
        };
        Some(LifecycleReply::Health(health))
    } else {
        None
    }
}

/// Round-robin slot of the `counter`-th call among `len` connections.
pub fn pool_slot(counter: u64, len: usize) -> (r: usize)
    requires
        len > 0,
    ensures
        r as int == counter as int % len as int,
{
    (counter % (len as u64)) as usize
}

} // verus!
