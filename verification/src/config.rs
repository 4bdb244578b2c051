//! Configuration model of the `malkuth daemon` supervisor (read from TOML by
//! the runtime) and the worker specs it turns into.
use vstd::prelude::*;
use crate::text::{dec_text, parse_u64, parse_u64_spec, push_decimal_text, str_trim, string_of, trimmed_text};
use crate::types::RestartPolicy;

use crate::supervisor::spec_restarts;

verus! {

/// How to launch and restart one supervised worker process.
#[derive(Debug, Clone)]
pub struct WorkerSpec {
    /// Unique id (used in status reports).
    pub id: String,
    /// Logical kind label.
    pub kind: String,
    /// Program to run.
    pub program: String,
    /// Command-line arguments.
    pub args: Vec<String>,
    /// Extra environment variables.
    pub env: Vec<(String, String)>,
    /// When to restart it.
    pub restart_policy: RestartPolicy,
}

impl WorkerSpec {
    /// A worker running `program`, no arguments, no extra environment,
    /// restarted permanently.
    pub fn new(id: String, kind: String, program: String) -> (r: WorkerSpec)
        ensures
            r.id == id,
            r.kind == kind,
            r.program == program,
            r.args@.len() == 0,
            r.env@.len() == 0,
            r.restart_policy == RestartPolicy::Permanent,
    {
        WorkerSpec { id, kind, program, args: Vec::new(), env: Vec::new(), restart_policy: RestartPolicy::Permanent }
    }

    /// Replace the arguments.
    pub fn args(self, args: Vec<String>) -> (r: WorkerSpec)
        ensures
            r == (WorkerSpec { args, ..self }),
    {
        WorkerSpec { args, ..self }
    }

    /// Add one environment variable.
    pub fn env(self, key: String, value: String) -> (r: WorkerSpec)
        ensures
            r.env@ == self.env@.push((key, value)),
            r.id == self.id && r.kind == self.kind && r.program == self.program,
            r.args == self.args && r.restart_policy == self.restart_policy,
    {
        let mut s = self;
        s.env.push((key, value));
        s
    }

    /// Set the restart policy.
    pub fn policy(self, policy: RestartPolicy) -> (r: WorkerSpec)
        ensures
            r == (WorkerSpec { restart_policy: policy, ..self }),
    {
        WorkerSpec { restart_policy: policy, ..self }
    }
}

/// Restart policy as written in the config file (lowercase names).
#[derive(Debug, Clone, Copy, PartialEq, Eq, Structural)]
pub enum PolicyDef {
    /// `permanent` (the default).
    Permanent,
    /// `transient`.
    Transient,
    /// `temporary`.
    Temporary,
}

/// The restart policy a config policy stands for.
pub open spec fn policy_of(p: PolicyDef) -> RestartPolicy {
    match p {
        PolicyDef::Permanent => RestartPolicy::Permanent,
        PolicyDef::Transient => RestartPolicy::Transient,
        PolicyDef::Temporary => RestartPolicy::Temporary,
    }
}

/// One `[[services]]` entry.
#[derive(Debug)]
pub struct ServiceDef {
    /// Worker id.
    pub id: String,
    /// Kind label (empty when not given).
    pub kind: String,
    /// Program to run.
    pub program: String,
    /// Arguments.
    pub args: Vec<String>,
    /// Restart policy.
    pub restart_policy: PolicyDef,
    /// Environment variables (`[services.env]`).
    pub env: Vec<(String, String)>,
    /// Working directory.
    pub working_dir: Option<String>,
}

/// The `[daemon]` table.
#[derive(Debug)]
pub struct DaemonSettings {
    /// Host the daemon reports.
    pub host: String,
    /// Restart rate-limit window.
    pub rate_limit_window_secs: u64,
    /// Restarts allowed within the window.
    pub rate_limit_max_restarts: u32,
    /// Cooldown after the rate limit trips.
    pub cooldown_secs: u64,
    /// PID file.
    pub pid_file: Option<String>,
}

/// The whole daemon config.
#[derive(Debug)]
pub struct DaemonConfig {
    /// `[daemon]`.
    pub daemon: DaemonSettings,
    /// `[[services]]`.
    pub services: Vec<ServiceDef>,
}

/// Default host: `127.0.0.1`.
pub fn default_host() -> (r: String)
    ensures
        r@ == "127.0.0.1"@,
{
    string_of("127.0.0.1")
}

/// Default rate-limit window: 60 seconds.
pub fn default_rate_limit_window() -> (r: u64)
    ensures
        r == 60,
{
    60
}

/// Default restart budget per window: 5.
pub fn default_rate_limit_max() -> (r: u32)
    ensures
        r == 5,
{
    5
}

/// Default cooldown: 30 seconds.
pub fn default_cooldown() -> (r: u64)
    ensures
        r == 30,
{
    30
}

impl Default for DaemonSettings {
    /// The settings used when `[daemon]` is absent.
    fn default() -> (r: DaemonSettings)
        ensures
            r.host@ == "127.0.0.1"@,
            r.rate_limit_window_secs == 60,
            r.rate_limit_max_restarts == 5,
            r.cooldown_secs == 30,
            r.pid_file is None,
    {
        DaemonSettings {
            host: default_host(),
            rate_limit_window_secs: default_rate_limit_window(),
            rate_limit_max_restarts: default_rate_limit_max(),
            cooldown_secs: default_cooldown(),
            pid_file: None,
        }
    }
}

/// The worker spec a service entry turns into: same id, program, arguments
/// and environment; the kind `service` when none was given; the matching
/// restart policy.
pub open spec fn spec_worker_of(svc: ServiceDef, w: WorkerSpec) -> bool {
    &&& w.id == svc.id
    &&& w.kind@ == (if svc.kind@.len() == 0 { "service"@ } else { svc.kind@ })
    &&& w.program == svc.program
    &&& w.args == svc.args
    &&& w.env == svc.env
    &&& w.restart_policy == policy_of(svc.restart_policy)
}

impl DaemonConfig {
    /// One worker spec per service, in order.
    pub fn into_worker_specs(self) -> (r: Vec<WorkerSpec>)
        ensures
            r@.len() == self.services@.len(),
            forall|i: int| 0 <= i < r@.len() ==> spec_worker_of(self.services@[i], #[trigger] r@[i]),
    {
        let ghost svcs = self.services@;
        let mut services = self.services;
        let mut out: Vec<WorkerSpec> = Vec::new();
        // take services from the back, then restore the order
        while services.len() > 0
            invariant
                services@.len() + out@.len() == svcs.len(),
                services@ == svcs.take(services@.len() as int),
                forall|i: int| 0 <= i < out@.len() ==> spec_worker_of(svcs[svcs.len() - 1 - i], #[trigger] out@[i]),
            decreases services@.len(),
        {
            let svc = services.pop().unwrap();
            let ghost n = services@.len();
            assert(svc == svcs[n as int]);
            let policy = match svc.restart_policy {
                PolicyDef::Permanent => RestartPolicy::Permanent,
                PolicyDef::Transient => RestartPolicy::Transient,
                PolicyDef::Temporary => RestartPolicy::Temporary,
            };
            let kind = if svc.kind.as_str().is_empty() { string_of("service") } else { svc.kind };
            out.push(WorkerSpec {
                id: svc.id,
                kind,
                program: svc.program,
                args: svc.args,
                env: svc.env,
                restart_policy: policy,
            });
            assert(services@ =~= svcs.take(services@.len() as int));
        }
        let mut specs: Vec<WorkerSpec> = Vec::new();
        while out.len() > 0
            invariant
                specs@.len() + out@.len() == svcs.len(),
                forall|i: int| 0 <= i < out@.len() ==> spec_worker_of(svcs[svcs.len() - 1 - i], #[trigger] out@[i]),
                forall|i: int| 0 <= i < specs@.len() ==> spec_worker_of(svcs[i], #[trigger] specs@[i]),
            decreases out@.len(),
        {
            let w = out.pop().unwrap();
            let ghost k = specs@.len();
            assert(spec_worker_of(svcs[k as int], w));
            specs.push(w);
        }
        specs
    }
}

/// The PID file the daemon guards itself with: the configured one, else
/// `/tmp/malkuth-daemon.pid`.
pub fn daemon_pid_file(configured: Option<String>) -> (r: String)
    ensures
        r@ == match configured {
            Some(p) => p@,
            None => "/tmp/malkuth-daemon.pid"@,
        },
{
    match configured {
        Some(p) => p,
        None => string_of("/tmp/malkuth-daemon.pid"),
    }
}

/// The process id an existing PID file records: its trimmed text read as a
/// decimal `i32`, when that is positive (no usable id otherwise).
pub fn recorded_pid(contents: &str) -> (r: Option<u32>)
    ensures
        r == match parse_u64_spec(trimmed_text(contents@)) {
            Some(n) => if 0 < n <= i32::MAX { Some(n as u32) } else { None },
            None => None,
        },
{
    match parse_u64(str_trim(contents)) {
        Some(n) => if 0 < n && n <= i32::MAX as u64 {
            Some(n as u32)
        } else {
            None
        },
        None => None,
    }
}

/// Why the daemon refuses to start while the process recorded in its PID
/// file is alive: `daemon already running (pid={pid}), pid_file={pid_file}`.
pub fn already_running_message(pid: u32, pid_file: &str) -> (r: String)
    ensures
        r@ == "daemon already running (pid="@ + dec_text(pid as nat) + "), pid_file="@ + pid_file@,
{
    let mut m = string_of("daemon already running (pid=");
    push_decimal_text(&mut m, pid as u64);
    m.append("), pid_file=");
    m.append(pid_file);
    m
}

/// A service's configured restart policy carries over by name, so a
/// `transient` service is not restarted after a clean exit and a `temporary`
/// one never is, while a `permanent` one always is.
pub proof fn law_service_policy_by_name(d: PolicyDef, clean_exit: bool)
    ensures
        policy_of(d) == RestartPolicy::Permanent <==> d == PolicyDef::Permanent,
        policy_of(d) == RestartPolicy::Transient <==> d == PolicyDef::Transient,
        policy_of(d) == RestartPolicy::Temporary <==> d == PolicyDef::Temporary,
        spec_restarts(policy_of(d), clean_exit) <==> (d == PolicyDef::Permanent || (d == PolicyDef::Transient
            && !clean_exit)),
{
}

} // verus!
