//! Filesystem-backed coordination lock (POSIX advisory `flock`): one lock
//! file per key under a root directory. The lock calls themselves are made by
//! the runtime; the naming of lock files is fixed here.
use vstd::prelude::*;
use crate::text::{sanitize_with_suffix, sanitized_name, string_of};
use crate::traits::LockError;
use crate::hashing::{fnv1a, key_to_i64};
use vstd::string::StringSliceAdditionalSpecFns;

verus! {

/// Filesystem-backed advisory lock. One lock file per `key` under `root`.
#[derive(Debug)]
pub struct FileLock {
    root: std::path::PathBuf,
}

impl FileLock {
    /// The directory holding the lock files.
    pub closed spec fn spec_root(&self) -> std::path::PathBuf {
        self.root
    }

    /// A lock rooted at `root`.
    pub fn new(root: std::path::PathBuf) -> (r: FileLock)
        ensures
            r.spec_root() == root,
    {
        FileLock { root }
    }

    /// The directory holding the lock files.
    pub fn root(&self) -> (r: &std::path::PathBuf)
        ensures
            *r == self.spec_root(),
    {
        &self.root
    }
}

/// The lock file name for `key`: ASCII letters, digits, `-` and `_` kept,
/// every other char turned into `_`, `default` for an empty key, then
/// `.lock`.
pub fn sanitize(key: &str) -> (r: String)
    ensures
        r@ == sanitized_name(key@, ".lock"@),
{
    sanitize_with_suffix(key, ".lock")
}

/// What a failed non-blocking `flock` on the lock file of `key` means: with
/// the OS error `os_error` equal to `would_block` (the platform's `EAGAIN`)
/// another live process holds the lock; any other failure is the I/O error
/// `err` itself.
pub fn flock_failure(key: &str, os_error: Option<i32>, would_block: i32, err: std::io::Error) -> (r: LockError)
    ensures
        os_error == Some(would_block) ==> (r matches LockError::Contended(m)
            && m@ == "flock on '"@ + key@ + "' is held by another live process"@),
        os_error != Some(would_block) ==> (r matches LockError::Io(e) && e == err),
{
    match os_error {
        Some(code) => if code == would_block {
            let mut m = string_of("flock on '");
            m.append(key);
            m.append("' is held by another live process");
            return LockError::Contended(m);
        },
        None => {},
    }
    LockError::Io(err)
}

/// What `SELECT pg_try_advisory_lock(k)` answering `got` means for the lock
/// named `key`: held, under the advisory key `k` (FNV-1a 64 of the name as a
/// signed 64-bit integer), or held by another live session.
pub fn pg_lock_outcome(key: &str, got: bool) -> (r: Result<i64, LockError>)
    ensures
        got ==> r == Ok::<i64, LockError>(fnv1a(key.spec_bytes()) as i64),
        !got ==> (r matches Err(LockError::Contended(m))
            && m@ == "pg advisory lock on '"@ + key@ + "' held by another live session"@),
{
    if got {
        Ok(key_to_i64(key))
    } else {
        let mut m = string_of("pg advisory lock on '");
        m.append(key);
        m.append("' held by another live session");
        Err(LockError::Contended(m))
    }
}

} // verus!
