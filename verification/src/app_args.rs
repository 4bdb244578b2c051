//! The reference worker binary: argument handling (`--pods N`,
//! `--port-base B`, each written `--name value` or `--name=value`), the
//! line protocol a worker speaks, and the worker specs and ports of its
//! supervise / rolling-update modes.
use vstd::prelude::*;
use vstd::string::*;
use crate::config::WorkerSpec;
use crate::text::{
    dec_text, has_prefix, parse_u16, parse_u16_spec, parse_u64, parse_u64_spec, push_decimal_text, str_strip_prefix,
    str_trim, string_of, text_eq, trimmed_text,
};
use crate::types::RestartPolicy;

verus! {

/// The value of flag `name` in `args`, scanning from index `i`: the first
/// argument starting with `name` that is exactly `name` yields the next
/// argument (or nothing when there is none), one continuing with `=` yields
/// the text after the `=`, and any other continuation is skipped.
pub open spec fn spec_flag_from(args: Seq<Seq<char>>, name: Seq<char>, i: int) -> Option<Seq<char>>
    decreases args.len() - i,
{
    if i < 0 || i >= args.len() {
        None
    } else if has_prefix(args[i], name) {
        let rest = args[i].skip(name.len() as int);
        if rest.len() == 0 {
            if i + 1 < args.len() {
                Some(args[i + 1])
            } else {
                None
            }
        } else if rest[0] == '=' {
            Some(rest.skip(1))
        } else {
            spec_flag_from(args, name, i + 1)
        }
    } else {
        spec_flag_from(args, name, i + 1)
    }
}

/// The views of a list of arguments.
pub open spec fn arg_views(args: Seq<String>) -> Seq<Seq<char>> {
    args.map_values(|a: String| a@)
}

/// The value of flag `name` in `args` (`--name value` or `--name=value`).
pub fn flag<'a>(args: &'a [String], name: &str) -> (r: Option<&'a str>)
    ensures
        match r {
            Some(v) => spec_flag_from(arg_views(args@), name@, 0) == Some(v@),
            None => spec_flag_from(arg_views(args@), name@, 0) is None,
        },
{
    let ghost av = arg_views(args@);
    let mut i: usize = 0;
    while i < args.len()
        invariant
            i <= args@.len(),
            av == arg_views(args@),
            av.len() == args@.len(),
            spec_flag_from(av, name@, 0) == spec_flag_from(av, name@, i as int),
        decreases args@.len() - i,
    {
        let a = args[i].as_str();
        assert(a@ == av[i as int]);
        match str_strip_prefix(a, name) {
            Some(rest) => {
                if rest.is_empty() {
                    if i + 1 < args.len() {
                        assert(args@[i + 1]@ == av[i + 1]);
                        return Some(args[i + 1].as_str());
                    }
                    return None;
                }
                proof {
                    reveal_strlit("=");
                }
                match str_strip_prefix(rest, "=") {
                    Some(v) => {
                        assert(rest@[0] == '=') by {
                            assert(rest@.take(1) == "="@);
                            assert(rest@.take(1)[0] == rest@[0]);
                        }
                        return Some(v);
                    },
                    None => {
                        assert(rest@[0] != '=') by {
                            if rest@[0] == '=' {
                                assert(rest@.take(1) =~= "="@);
                            }
                        }
                    },
                }
            },
            None => {},
        }
        i = i + 1;
    }
    None
}

/// `--pods`: the pod count when it is given and parses, else 3.
pub fn pods(args: &[String]) -> (r: usize)
    ensures
        r == match spec_flag_from(arg_views(args@), "--pods"@, 0) {
            Some(v) => match parse_u64_spec(v) {
                Some(n) => if n <= usize::MAX { n as usize } else { 3usize },
                None => 3usize,
            },
            None => 3usize,
        },
{
    match flag(args, "--pods") {
        Some(v) => match parse_u64(v) {
            Some(n) => if n <= usize::MAX as u64 {
                n as usize
            } else {
                3
            },
            None => 3,
        },
        None => 3,
    }
}

/// `--port-base`: the base port when it is given and parses, else 0.
pub fn port_base(args: &[String]) -> (r: u16)
    ensures
        r == match spec_flag_from(arg_views(args@), "--port-base"@, 0) {
            Some(v) => match parse_u16_spec(v) {
                Some(p) => p,
                None => 0u16,
            },
            None => 0u16,
        },
{
    match flag(args, "--port-base") {
        Some(v) => match parse_u16(v) {
            Some(p) => p,
            None => 0,
        },
        None => 0,
    }
}

/// A command of the worker's line protocol.
#[derive(Debug, Clone, Copy, PartialEq, Eq, Structural)]
pub enum WorkerCommand {
    /// `ping`: answered `pong`.
    Ping,
    /// `health`: answered with the worker's port, generation and pid.
    Health,
    /// `crash`: the worker exits with status 1.
    Crash,
    /// Anything else: answered with an error line.
    Unknown,
}

/// The command a received line asks for (surrounding whitespace ignored).
pub fn worker_command(line: &str) -> (r: WorkerCommand)
    ensures
        r == (if trimmed_text(line@) == "ping"@ {
            WorkerCommand::Ping
        } else if trimmed_text(line@) == "health"@ {
            WorkerCommand::Health
        } else if trimmed_text(line@) == "crash"@ {
            WorkerCommand::Crash
        } else {
            WorkerCommand::Unknown
        }),
{
    let cmd = str_trim(line);
    if text_eq(cmd, "ping") {
        WorkerCommand::Ping
    } else if text_eq(cmd, "health") {
        WorkerCommand::Health
    } else if text_eq(cmd, "crash") {
        WorkerCommand::Crash
    } else {
        WorkerCommand::Unknown
    }
}

/// The reply line to `health`: `port={port};gen={generation};pid={pid}`.
pub fn health_reply(port: u16, generation: u64, pid: u32) -> (r: String)
    ensures
        r@ == "port="@ + dec_text(port as nat) + ";gen="@ + dec_text(generation as nat) + ";pid="@
            + dec_text(pid as nat) + "\n"@,
{
    let mut s = string_of("port=");
    push_decimal_text(&mut s, port as u64);
    s.append(";gen=");
    push_decimal_text(&mut s, generation);
    s.append(";pid=");
    push_decimal_text(&mut s, pid as u64);
    s.append("\n");
    s
}

/// The spec of one worker process of the reference binary: `program worker`
/// with `PORT` and `GEN` in its environment, restarted permanently.
pub fn worker_spec(id: String, program: String, port: u16, generation: u64) -> (r: WorkerSpec)
    ensures
        r.id == id,
        r.kind@ == "app"@,
        r.program == program,
        r.args@.len() == 1 && r.args@[0]@ == "worker"@,
        r.env@.len() == 2,
        r.env@[0].0@ == "PORT"@ && r.env@[0].1@ == dec_text(port as nat),
        r.env@[1].0@ == "GEN"@ && r.env@[1].1@ == dec_text(generation as nat),
        r.restart_policy == RestartPolicy::Permanent,
{
    let mut port_text = String::new();
    push_decimal_text(&mut port_text, port as u64);
    let mut gen_text = String::new();
    push_decimal_text(&mut gen_text, generation);
    let mut args: Vec<String> = Vec::new();
    args.push(string_of("worker"));
    WorkerSpec::new(id, string_of("app"), program).args(args).env(string_of("PORT"), port_text).env(
        string_of("GEN"),
        gen_text,
    ).policy(RestartPolicy::Permanent)
}

/// The ports of a rolling update over `pods` pods above `port_base`: the
/// first generation on `port_base + 1 ..= port_base + pods`, the second on
/// the `pods` ports after those.
pub fn rolling_ports(pods: u16, port_base: u16) -> (r: (Vec<u16>, Vec<u16>))
    requires
        port_base + 2 * pods <= u16::MAX,
    ensures
        r.0@.len() == pods && r.1@.len() == pods,
        forall|i: int| 0 <= i < pods ==> #[trigger] r.0@[i] == port_base + 1 + i,
        forall|i: int| 0 <= i < pods ==> #[trigger] r.1@[i] == port_base + 1 + pods + i,
{
    let mut first: Vec<u16> = Vec::new();
    let mut second: Vec<u16> = Vec::new();
    let mut i: u16 = 0;
    while i < pods
        invariant
            port_base + 2 * pods <= u16::MAX,
            i <= pods,
            first@.len() == i && second@.len() == i,
            forall|k: int| 0 <= k < i ==> #[trigger] first@[k] == port_base + 1 + k,
            forall|k: int| 0 <= k < i ==> #[trigger] second@[k] == port_base + 1 + pods + k,
        decreases pods - i,
    {
        first.push(port_base + 1 + i);
        second.push(port_base + 1 + pods + i);
        i = i + 1;
    }
    (first, second)
}


/// Where a gradual rolling update of the worker pods stands.
#[derive(Debug, Clone, Copy, PartialEq, Eq, Structural)]
pub enum RollingPhase {
    /// Every first-generation pod is started; waiting for pod `i` to answer.
    AwaitingGen0(usize),
    /// Second-generation pod `i` is started; waiting for it to answer.
    AwaitingGen1(usize),
    /// Draining first-generation pod `i`, the oldest still running.
    Draining(usize),
    /// Every second-generation pod serves; every first-generation pod is gone.
    Serving,
    /// A pod never became healthy; the update was abandoned.
    Failed,
}

/// A rolling update over `pods` pods.
#[derive(Debug, Clone, Copy, PartialEq, Eq, Structural)]
pub struct RollingState {
    /// Number of pods in each generation.
    pub pods: usize,
    /// Where the update stands.
    pub phase: RollingPhase,
}

/// What the runtime reports back after performing an action.
#[derive(Debug, Clone, Copy, PartialEq, Eq, Structural)]
pub enum RollingEvent {
    /// The pod waited for answered in time (`true`) or not (`false`).
    Healthy(bool),
    /// The pod being drained has stopped.
    Drained,
}

/// What the runtime is to do next.
#[derive(Debug, Clone, Copy, PartialEq, Eq, Structural)]
pub enum RollingAction {
    /// Wait until first-generation pod `i` answers.
    CheckGen0(usize),
    /// Start second-generation pod `i` and wait until it answers.
    SpawnGen1(usize),
    /// Drain first-generation pod `i` and wait until it has stopped.
    DrainGen0(usize),
    /// The update is complete: serve until stopped.
    Finish,
    /// First-generation pod `i` never answered: give up.
    AbortGen0(usize),
    /// Second-generation pod `i` never answered: give up.
    AbortGen1(usize),
    /// The event does not apply in this phase: nothing to do.
    Ignore,
}

/// The first step of a rolling update over `pods` pods, once every
/// first-generation pod has been started: wait for the first of them, or,
/// with no pods at all, nothing is left to do.
pub open spec fn rolling_first(pods: usize) -> (RollingState, RollingAction) {
    if pods == 0 {
        (RollingState { pods, phase: RollingPhase::Serving }, RollingAction::Finish)
    } else {
        (RollingState { pods, phase: RollingPhase::AwaitingGen0(0) }, RollingAction::CheckGen0(0))
    }
}

/// The transition table of a rolling update: the first generation is
/// checked pod by pod; then, one pod at a time, a second-generation pod is
/// started and, once it answers, the oldest first-generation pod is drained.
/// A pod that never answers aborts the update; an event that does not apply
/// changes nothing.
pub open spec fn rolling_next(s: RollingState, e: RollingEvent) -> (RollingState, RollingAction) {
    match (s.phase, e) {
        (RollingPhase::AwaitingGen0(i), RollingEvent::Healthy(true)) => if i + 1 < s.pods {
            (RollingState { pods: s.pods, phase: RollingPhase::AwaitingGen0((i + 1) as usize) }, RollingAction::CheckGen0((i + 1) as usize))
        } else {
            (RollingState { pods: s.pods, phase: RollingPhase::AwaitingGen1(0) }, RollingAction::SpawnGen1(0))
        },
        (RollingPhase::AwaitingGen0(i), RollingEvent::Healthy(false)) => (
            RollingState { pods: s.pods, phase: RollingPhase::Failed },
            RollingAction::AbortGen0(i),
        ),
        (RollingPhase::AwaitingGen1(i), RollingEvent::Healthy(true)) => (
            RollingState { pods: s.pods, phase: RollingPhase::Draining(i) },
            RollingAction::DrainGen0(i),
        ),
        (RollingPhase::AwaitingGen1(i), RollingEvent::Healthy(false)) => (
            RollingState { pods: s.pods, phase: RollingPhase::Failed },
            RollingAction::AbortGen1(i),
        ),
        (RollingPhase::Draining(i), RollingEvent::Drained) => if i + 1 < s.pods {
            (RollingState { pods: s.pods, phase: RollingPhase::AwaitingGen1((i + 1) as usize) }, RollingAction::SpawnGen1((i + 1) as usize))
        } else {
            (RollingState { pods: s.pods, phase: RollingPhase::Serving }, RollingAction::Finish)
        },
        _ => (s, RollingAction::Ignore),
    }
}

/// The first step of a rolling update over `pods` pods.
pub fn rolling_start(pods: usize) -> (r: (RollingState, RollingAction))
    ensures
        r == rolling_first(pods),
{
    if pods == 0 {
        (RollingState { pods, phase: RollingPhase::Serving }, RollingAction::Finish)
    } else {
        (RollingState { pods, phase: RollingPhase::AwaitingGen0(0) }, RollingAction::CheckGen0(0))
    }
}

/// The next state and action of a rolling update, given what the last
/// action reported.
pub fn rolling_step(state: RollingState, event: RollingEvent) -> (r: (RollingState, RollingAction))
    ensures
        r == rolling_next(state, event),
{
    let pods = state.pods;
    match (state.phase, event) {
        (RollingPhase::AwaitingGen0(i), RollingEvent::Healthy(true)) => {
            if i < pods && pods - i > 1 {
                (RollingState { pods, phase: RollingPhase::AwaitingGen0(i + 1) }, RollingAction::CheckGen0(i + 1))
            } else {
                (RollingState { pods, phase: RollingPhase::AwaitingGen1(0) }, RollingAction::SpawnGen1(0))
            }
        },
        (RollingPhase::AwaitingGen0(i), RollingEvent::Healthy(false)) => {
            (RollingState { pods, phase: RollingPhase::Failed }, RollingAction::AbortGen0(i))
        },
        (RollingPhase::AwaitingGen1(i), RollingEvent::Healthy(true)) => {
            (RollingState { pods, phase: RollingPhase::Draining(i) }, RollingAction::DrainGen0(i))
        },
        (RollingPhase::AwaitingGen1(i), RollingEvent::Healthy(false)) => {
            (RollingState { pods, phase: RollingPhase::Failed }, RollingAction::AbortGen1(i))
        },
        (RollingPhase::Draining(i), RollingEvent::Drained) => {
            if i < pods && pods - i > 1 {
                (RollingState { pods, phase: RollingPhase::AwaitingGen1(i + 1) }, RollingAction::SpawnGen1(i + 1))
            } else {
                (RollingState { pods, phase: RollingPhase::Serving }, RollingAction::Finish)
            }
        },
        _ => (state, RollingAction::Ignore),
    }
}

/// The report of a performed action when it succeeds: a drain ends with the
/// pod stopped, any other action with the pod answering.
pub open spec fn success_report(a: RollingAction) -> RollingEvent {
    match a {
        RollingAction::DrainGen0(_) => RollingEvent::Drained,
        _ => RollingEvent::Healthy(true),
    }
}

/// Where `k` steps lead from `(s, a)` when every action succeeds.
pub open spec fn rolling_run_ok(s: RollingState, a: RollingAction, k: nat) -> (RollingState, RollingAction)
    decreases k,
{
    if k == 0 {
        (s, a)
    } else {
        let (s2, a2) = rolling_next(s, success_report(a));
        rolling_run_ok(s2, a2, (k - 1) as nat)
    }
}

/// Checking the first generation from pod `i` on takes one step per pod
/// left, then the second generation starts with pod 0.
proof fn lemma_rolling_gen0(pods: usize, i: usize, m: nat)
    requires
        i < pods,
    ensures
        rolling_run_ok(RollingState { pods, phase: RollingPhase::AwaitingGen0(i) }, RollingAction::CheckGen0(i), (pods - i + m) as nat)
            == rolling_run_ok(RollingState { pods, phase: RollingPhase::AwaitingGen1(0) }, RollingAction::SpawnGen1(0), m),
    decreases pods - i,
{
    let k = (pods - i + m) as nat;
    assert(rolling_run_ok(RollingState { pods, phase: RollingPhase::AwaitingGen0(i) }, RollingAction::CheckGen0(i), k)
        == rolling_run_ok(rolling_next(RollingState { pods, phase: RollingPhase::AwaitingGen0(i) }, RollingEvent::Healthy(true)).0,
            rolling_next(RollingState { pods, phase: RollingPhase::AwaitingGen0(i) }, RollingEvent::Healthy(true)).1, (k - 1) as nat));
    if i + 1 < pods {
        lemma_rolling_gen0(pods, (i + 1) as usize, m);
    }
}

/// From second-generation pod `i` on, each pod left takes two steps (start,
/// then drain its first-generation counterpart), and the update ends serving.
proof fn lemma_rolling_gen1(pods: usize, i: usize)
    requires
        i < pods,
    ensures
        rolling_run_ok(RollingState { pods, phase: RollingPhase::AwaitingGen1(i) }, RollingAction::SpawnGen1(i), (2 * (pods - i)) as nat)
            == (RollingState { pods, phase: RollingPhase::Serving }, RollingAction::Finish),
    decreases pods - i,
{
    let k = (2 * (pods - i)) as nat;
    let s0 = RollingState { pods, phase: RollingPhase::AwaitingGen1(i) };
    let s1 = RollingState { pods, phase: RollingPhase::Draining(i) };
    assert(rolling_next(s0, RollingEvent::Healthy(true)) == (s1, RollingAction::DrainGen0(i)));
    assert(rolling_run_ok(s0, RollingAction::SpawnGen1(i), k) == rolling_run_ok(s1, RollingAction::DrainGen0(i), (k - 1) as nat));
    let n2 = rolling_next(s1, RollingEvent::Drained);
    assert(rolling_run_ok(s1, RollingAction::DrainGen0(i), (k - 1) as nat) == rolling_run_ok(n2.0, n2.1, (k - 2) as nat));
    if i + 1 < pods {
        lemma_rolling_gen1(pods, (i + 1) as usize);
    } else {
        assert(rolling_run_ok(n2.0, n2.1, 0) == n2);
    }
}

/// When every pod answers and every drain completes, a rolling update over
/// `pods` pods ends with the second generation serving after exactly three
/// steps per pod: one check of each first-generation pod, then, per pod, the
/// start of its successor and its drain.
pub proof fn law_rolling_completes(pods: usize)
    ensures
        rolling_run_ok(rolling_first(pods).0, rolling_first(pods).1, (3 * pods) as nat)
            == (RollingState { pods, phase: RollingPhase::Serving }, RollingAction::Finish),
{
    if pods > 0 {
        lemma_rolling_gen0(pods, 0, (2 * pods) as nat);
        lemma_rolling_gen1(pods, 0);
        assert((pods - 0 + 2 * pods) as nat == (3 * pods) as nat);
    }
}

} // verus!
