//! JSON-RPC method names used by the lifecycle / supervision protocol.
use vstd::prelude::*;

verus! {

/// Begin a graceful drain.
pub const DRAIN: &'static str = "Lifecycle.Drain";
/// Hot configuration reload.
pub const RELOAD: &'static str = "Lifecycle.Reload";
/// Readiness status.
pub const STATUS: &'static str = "Lifecycle.Status";
/// Liveness status.
pub const HEALTH: &'static str = "Lifecycle.Health";
/// Worker snapshots.
pub const WORKER_STATUS: &'static str = "Worker.Status";
/// Register an instance.
pub const INSTANCE_REGISTER: &'static str = "Lifecycle.InstanceRegister";
/// Deregister an instance.
pub const INSTANCE_DEREGISTER: &'static str = "Lifecycle.InstanceDeregister";
/// List instances.
pub const INSTANCE_LIST: &'static str = "Lifecycle.InstanceList";
/// Leader announcement.
pub const LEADER_ANNOUNCE: &'static str = "Lifecycle.LeaderAnnounce";
/// Heartbeat.
pub const HEARTBEAT: &'static str = "Lifecycle.Heartbeat";

} // verus!
