use vstd::prelude::*;

pub mod app_args;
pub mod cli;
pub mod client;
pub mod codec;
pub mod config;
pub mod hashing;
pub mod hooks;
pub mod json;
pub mod jsonrpc;
pub mod leader;
pub mod lease;
pub mod lifecycle;
pub mod lock;
pub mod mcp;
pub mod pool;
pub mod probes;
pub mod proxy;
pub mod registry;
pub mod ring;
pub mod router;
pub mod supervisor;
pub mod text;
pub mod traits;
pub mod transport;
pub mod types;
pub mod watcher;

verus! {
} // verus!

pub use hooks::{ExitReason, HeartbeatReport, ProbeSink, SignalExitSource};
pub use lifecycle::{DrainController, ShutdownKind};
pub use traits::{ElectionError, InstanceRegistry, LockError, RegistryError};
pub use types::{
    DependencyCheck, DrainRequest, DrainResponse, DrainState, HealthStatus, HeartbeatBeat, InstanceInfo,
    InstanceRole, LeaderAnnounce, LeaderRole, ReadyStatus, RestartPolicy, WorkerInfo, WorkerStatus,
};
pub use types::methods;
pub use jsonrpc::{Id, Request, Response, RpcError};
pub use config::WorkerSpec;
pub use lease::LeaseLock;
pub use leader::LeaseLeaderElector;
pub use lock::FileLock;
pub use probes::ProbeState;
pub use proxy::ProxyState;
pub use registry::InMemoryRegistry;
