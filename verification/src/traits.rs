//! Coordination, registry & election error types, and the registry contract
//! that the in-memory backend implements.
use vstd::prelude::*;
use crate::types::{InstanceInfo, InstanceRole};

verus! {

/// Errors that can occur while acquiring or holding a lock.
#[derive(Debug)]
pub enum LockError {
    /// The lock is held by another live owner.
    Contended(String),
    /// An I/O error occurred.
    Io(std::io::Error),
    /// The backend is not built in (feature disabled).
    Unavailable(&'static str),
}

/// Errors from the instance registry.
#[derive(Debug)]
pub enum RegistryError {
    /// An instance with this id was not found.
    NotFound(String),
    /// The backing store could not be reached.
    Store(String),
}

/// Errors during leader election.
#[derive(Debug)]
pub enum ElectionError {
    /// The lease is currently held by another live candidate.
    Contended(String),
    /// The backing store could not be reached.
    Store(String),
}

/// A registry of the replicas in a group, used mainly during the
/// rolling-update window (a single record in steady state).
pub trait InstanceRegistry {
    /// Insert or upsert this instance's entry.
    fn register(&mut self, info: InstanceInfo) -> Result<(), RegistryError>;

    /// Update an instance's role (e.g. `Active` → `Draining`).
    fn set_role(&mut self, instance_id: &str, role: InstanceRole) -> Result<(), RegistryError>;

    /// Remove an instance that has exited.
    fn deregister(&mut self, instance_id: &str) -> Result<(), RegistryError>;

    /// List the instances currently known in `group`.
    fn list(&self, group: &str) -> Result<Vec<InstanceInfo>, RegistryError>;
}

} // verus!
