//! Lifecycle, supervision & rolling-update wire types: the protocol values
//! that cross process boundaries (JSON-RPC, HTTP probes, registry queries).
use vstd::prelude::*;

pub mod methods;

verus! {

/// High-level lifecycle state of an instance, observable over the wire.
#[derive(Debug, Clone, Copy, PartialEq, Eq, Structural)]
pub enum DrainState {
    /// Serving normally (the default).
    Active,
    /// Draining before exit.
    Draining,
    /// Reloading configuration.
    Reloading,
}

impl Default for DrainState {
    /// The default state: `Active`.
    fn default() -> (r: DrainState)
        ensures
            r == DrainState::Active,
    {
        DrainState::Active
    }
}

/// Result of one dependency check reported by `/readyz`.
#[derive(Debug, Clone)]
pub struct DependencyCheck {
    /// Dependency name.
    pub name: String,
    /// Whether the check passed.
    pub ok: bool,
    /// Detail shown when it did not.
    pub detail: Option<String>,
}

/// Readiness probe payload — the body of `GET /readyz`. Route new traffic
/// only to instances whose `ready && !draining`.
#[derive(Debug, Clone)]
pub struct ReadyStatus {
    /// Ready to take traffic.
    pub ready: bool,
    /// Drain bit.
    pub draining: bool,
    /// Per-dependency results.
    pub dependencies: Vec<DependencyCheck>,
    /// Deployment generation.
    pub generation: Option<u64>,
}

/// Liveness probe payload — the body of `GET /healthz`.
#[derive(Debug, Clone)]
pub struct HealthStatus {
    /// Always true while the process answers.
    pub alive: bool,
    /// Process id.
    pub pid: u32,
    /// Seconds since start.
    pub uptime_secs: u64,
    /// Service version.
    pub version: String,
}

/// Role of an instance within its group.
#[derive(Debug, Clone, Copy, PartialEq, Eq, Structural)]
pub enum InstanceRole {
    /// Taking traffic.
    Active,
    /// Draining.
    Draining,
}

/// One entry in the shared instance registry.
#[derive(Debug, Clone)]
pub struct InstanceInfo {
    /// Unique instance id.
    pub instance_id: String,
    /// Group the instance belongs to.
    pub group: String,
    /// Current role.
    pub role: InstanceRole,
    /// Deployment generation.
    pub generation: u64,
    /// Start time.
    pub started_at: String,
    /// RPC endpoint.
    pub endpoint: Option<String>,
    /// Backend address.
    pub backend: Option<String>,
}

/// Leader/follower role (active-passive HA).
#[derive(Debug, Clone, Copy, PartialEq, Eq, Structural)]
pub enum LeaderRole {
    /// Holds the lease.
    Leader,
    /// Waits for the lease.
    Follower,
}

/// Announcement of a lease acquisition or transfer.
#[derive(Debug, Clone)]
pub struct LeaderAnnounce {
    /// Node id.
    pub node_id: String,
    /// Instance that leads.
    pub leader_instance_id: String,
    /// Election term.
    pub term: u64,
    /// When the lease was acquired.
    pub acquired_at: String,
    /// Lease TTL in seconds.
    pub lease_ttl_secs: u32,
}

/// Lifecycle state of one supervised worker process.
#[derive(Debug, Clone, Copy, PartialEq, Eq, Structural)]
pub enum WorkerStatus {
    /// Being spawned.
    Starting,
    /// Running.
    Running,
    /// Exited on purpose.
    Stopped,
    /// Crashed.
    Failed,
}

/// When to restart a worker after it exits (OTP vocabulary).
#[derive(Debug, Clone, Copy, PartialEq, Eq, Structural)]
pub enum RestartPolicy {
    /// Always restart (the default).
    Permanent,
    /// Restart only after a failure.
    Transient,
    /// Never restart.
    Temporary,
}

impl Default for RestartPolicy {
    /// The default policy: `Permanent`.
    fn default() -> (r: RestartPolicy)
        ensures
            r == RestartPolicy::Permanent,
    {
        RestartPolicy::Permanent
    }
}

/// Snapshot of one worker, reported over `Worker.Status`.
#[derive(Debug, Clone)]
pub struct WorkerInfo {
    /// Worker id.
    pub id: String,
    /// Worker kind.
    pub kind: String,
    /// Current status.
    pub status: WorkerStatus,
    /// Restart policy.
    pub restart_policy: RestartPolicy,
    /// Restarts so far.
    pub restart_count: u32,
    /// Last error.
    pub last_error: Option<String>,
}

/// Body of `Lifecycle.Drain`.
#[derive(Debug, Clone)]
pub struct DrainRequest {
    /// Drain budget.
    pub timeout_secs: Option<u32>,
    /// Why.
    pub reason: Option<String>,
}

/// Reply to `Lifecycle.Drain`.
#[derive(Debug, Clone, Copy, PartialEq, Eq, Structural)]
pub struct DrainResponse {
    /// The drain request was accepted.
    pub accepted: bool,
    /// The instance is now draining.
    pub draining: bool,
}

/// Body of `Lifecycle.Heartbeat`.
#[derive(Debug, Clone)]
pub struct HeartbeatBeat {
    /// Instance id.
    pub instance_id: String,
    /// Group.
    pub group: String,
    /// Timestamp.
    pub ts: String,
    /// Backend address.
    pub backend: Option<String>,
    /// Deployment generation.
    pub generation: u64,
}

} // verus!
