//! Argument handling of the MCP tools (supervise workers, probe a service):
//! restart-policy names, `KEY=VALUE` environment pairs, the worker specs a
//! supervise call launches, and the URLs a probe call hits.
use vstd::prelude::*;
use vstd::string::*;
use crate::text::{
    ascii_lowercase, spec_split_once, str_split_once, str_trim, string_of, text_eq, to_ascii_lowercase,
    trimmed_text,
};
use crate::config::WorkerSpec;
use crate::types::RestartPolicy;

verus! {

/// The restart policy a name selects: `transient` and `temporary` (any ASCII
/// case, surrounding whitespace ignored) select those; anything else,
/// including no name or a blank one, selects `permanent`.
pub open spec fn spec_parse_policy(name: Option<Seq<char>>) -> RestartPolicy {
    match name {
        None => RestartPolicy::Permanent,
        Some(n) => {
            let t = trimmed_text(n);
            if t.len() == 0 {
                RestartPolicy::Permanent
            } else if ascii_lowercase(t) == "transient"@ {
                RestartPolicy::Transient
            } else if ascii_lowercase(t) == "temporary"@ {
                RestartPolicy::Temporary
            } else {
                RestartPolicy::Permanent
            }
        },
    }
}

/// Parse a restart-policy name.
pub fn parse_policy(name: Option<&str>) -> (r: RestartPolicy)
    ensures
        r == spec_parse_policy(match name {
            Some(n) => Some(n@),
            None => None,
        }),
{
    let n = match name {
        Some(n) => n,
        None => {
            return RestartPolicy::Permanent;
        },
    };
    let t = str_trim(n);
    if t.is_empty() {
        return RestartPolicy::Permanent;
    }
    let lower = to_ascii_lowercase(t);
    if text_eq(lower.as_str(), "transient") {
        RestartPolicy::Transient
    } else if text_eq(lower.as_str(), "temporary") {
        RestartPolicy::Temporary
    } else {
        RestartPolicy::Permanent
    }
}

/// A `KEY=VALUE` pair: the key (trimmed) and the value after the first `=`;
/// `None` without an `=`.
pub fn env_pair(pair: &str) -> (r: Option<(String, String)>)
    ensures
        match spec_split_once(pair@, '=') {
            Some((k, v)) => r matches Some((rk, rv)) && rk@ == trimmed_text(k) && rv@ == v,
            None => r is None,
        },
{
    match str_split_once(pair, '=') {
        Some((k, v)) => Some((string_of(str_trim(k)), string_of(v))),
        None => None,
    }
}

/// The endpoints a probe of kind `kind` hits: `/readyz` for `readyz` or
/// `ready`, both for `both`, `/healthz` otherwise (and when no kind is given).
pub fn probe_endpoints(kind: Option<&str>) -> (r: Vec<&'static str>)
    ensures
        ({
            let k = match kind {
                Some(k) => k@,
                None => "healthz"@,
            };
            if k == "readyz"@ || k == "ready"@ {
                r@.len() == 1 && r@[0]@ == "/readyz"@
            } else if k == "both"@ {
                r@.len() == 2 && r@[0]@ == "/healthz"@ && r@[1]@ == "/readyz"@
            } else {
                r@.len() == 1 && r@[0]@ == "/healthz"@
            }
        }),
{
    let k = match kind {
        Some(k) => k,
        None => "healthz",
    };
    let mut out: Vec<&'static str> = Vec::new();
    if text_eq(k, "readyz") || text_eq(k, "ready") {
        out.push("/readyz");
    } else if text_eq(k, "both") {
        out.push("/healthz");
        out.push("/readyz");
    } else {
        out.push("/healthz");
    }
    out
}

/// An HTTP status is a success (2xx).
pub fn status_ok(status: u16) -> (r: bool)
    ensures
        r == (200 <= status < 300),
{
    200 <= status && status < 300
}

/// The environment a worker gets from its `KEY=VALUE` strings, in order:
/// each string with an `=` adds its pair (key trimmed); others are ignored.
pub open spec fn spec_env_pairs(pairs: Seq<Seq<char>>) -> Seq<(Seq<char>, Seq<char>)>
    decreases pairs.len(),
{
    if pairs.len() == 0 {
        Seq::empty()
    } else {
        let prev = spec_env_pairs(pairs.drop_last());
        match spec_split_once(pairs.last(), '=') {
            Some((k, v)) => prev.push((trimmed_text(k), v)),
            None => prev,
        }
    }
}

/// The text of each `(key, value)` pair.
pub open spec fn env_views(env: Seq<(String, String)>) -> Seq<(Seq<char>, Seq<char>)> {
    env.map_values(|e: (String, String)| (e.0@, e.1@))
}

/// The worker spec a supervise call launches for one worker argument:
/// its id, kind, program and arguments, the policy its name selects, and
/// the environment its `KEY=VALUE` strings give.
pub fn tool_worker_spec(
    id: String,
    kind: String,
    program: String,
    args: Vec<String>,
    env: Vec<String>,
    restart_policy: Option<&str>,
) -> (r: WorkerSpec)
    ensures
        r.id == id,
        r.kind == kind,
        r.program == program,
        r.args == args,
        r.restart_policy == spec_parse_policy(match restart_policy {
            Some(n) => Some(n@),
            None => None,
        }),
        env_views(r.env@) == spec_env_pairs(env@.map_values(|e: String| e@)),
{
    let mut spec = WorkerSpec::new(id, kind, program).args(args).policy(parse_policy(restart_policy));
    let ghost ev = env@.map_values(|e: String| e@);
    let mut i: usize = 0;
    while i < env.len()
        invariant
            i <= env@.len(),
            ev == env@.map_values(|e: String| e@),
            spec.id == id && spec.kind == kind && spec.program == program && spec.args == args,
            spec.restart_policy == spec_parse_policy(match restart_policy {
                Some(n) => Some(n@),
                None => None,
            }),
            env_views(spec.env@) == spec_env_pairs(ev.take(i as int)),
        decreases env@.len() - i,
    {
        proof {
            assert(ev.take(i + 1).drop_last() =~= ev.take(i as int));
            assert(ev.take(i + 1).last() == env@[i as int]@);
        }
        match env_pair(env[i].as_str()) {
            Some((k, v)) => {
                let ghost before = spec.env@;
                spec = spec.env(k, v);
                assert(env_views(spec.env@) =~= env_views(before).push((spec.env@.last().0@, spec.env@.last().1@)));
            },
            None => {},
        }
        i = i + 1;
    }
    assert(ev.take(env@.len() as int) =~= ev);
    spec
}

/// `base` with every trailing `/` removed.
pub open spec fn trim_trailing_slashes(base: Seq<char>) -> Seq<char>
    decreases base.len(),
{
    if base.len() > 0 && base.last() == '/' {
        trim_trailing_slashes(base.drop_last())
    } else {
        base
    }
}

/// The URL a probe of `endpoint` hits on the service at `base`: the base
/// without trailing slashes, then the endpoint.
pub fn probe_url(base: &str, endpoint: &str) -> (r: String)
    ensures
        r@ == trim_trailing_slashes(base@) + endpoint@,
{
    let ghost chars = base@;
    let mut n: usize = base.unicode_len();
    assert(chars.take(n as int) =~= chars);
    while n > 0 && base.get_char(n - 1) == '/'
        invariant
            chars == base@,
            n <= chars.len(),
            trim_trailing_slashes(chars.take(n as int)) == trim_trailing_slashes(chars),
        decreases n,
    {
        assert(chars.take(n as int).drop_last() =~= chars.take(n - 1));
        n = n - 1;
    }
    let mut out = string_of(base.substring_char(0, n));
    assert(out@ =~= chars.take(n as int));
    assert(trim_trailing_slashes(chars.take(n as int)) == chars.take(n as int));
    out.append(endpoint);
    out
}

/// The workers a supervision call runs: the list itself, or the error
/// message for an empty list (at least one worker is required).
pub fn require_workers(specs: Vec<WorkerSpec>) -> (r: Result<Vec<WorkerSpec>, String>)
    ensures
        match r {
            Ok(v) => specs@.len() > 0 && v@ == specs@,
            Err(m) => specs@.len() == 0 && m@ == "at least one worker is required"@,
        },
{
    if specs.len() == 0 {
        Err(string_of("at least one worker is required"))
    } else {
        Ok(specs)
    }
}

/// Whether a supervision call reports that it timed out: a timeout was set
/// and no worker's final status came back (the run was cut short).
pub fn supervise_timed_out(timeout_set: bool, finished: usize) -> (r: bool)
    ensures
        r == (timeout_set && finished == 0),
{
    timeout_set && finished == 0
}

} // verus!
