//! Lease-based coordination lock: a lease file with TTL auto-expiry. The
//! holder renews the lease periodically; if it crashes or stops renewing, the
//! lease expires and another owner may claim it. The file I/O is done by the
//! runtime; every decision it takes about a lease is made here.
use vstd::prelude::*;
use vstd::string::*;
use crate::text::{dec_text, push_decimal_text, sanitize_with_suffix, sanitized_name, string_of};

verus! {

/// Filesystem lease lock. One lease file per `key` under `root`.
#[derive(Debug)]
pub struct LeaseLock {
    root: std::path::PathBuf,
}

impl LeaseLock {
    /// The directory holding the lease files.
    pub closed spec fn spec_root(&self) -> std::path::PathBuf {
        self.root
    }

    /// A lease lock rooted at `root`.
    pub fn new(root: std::path::PathBuf) -> (r: LeaseLock)
        ensures
            r.spec_root() == root,
    {
        LeaseLock { root }
    }

    /// The directory holding the lease files.
    pub fn root(&self) -> (r: &std::path::PathBuf)
        ensures
            *r == self.spec_root(),
    {
        &self.root
    }
}

/// The record stored in a lease file.
#[derive(Debug, Clone)]
pub struct LeaseRecord {
    /// Who holds the lease.
    pub owner: String,
    /// Expiry as milliseconds since the Unix epoch.
    pub expires_at_ms: u64,
}

/// A record is held by someone else and still live at `now`.
pub open spec fn held_by_other(rec: LeaseRecord, owner: Seq<char>, now: u64) -> bool {
    rec.expires_at_ms > now && rec.owner@ != owner
}

/// `owner` may claim a lease whose file holds `existing` (`None`: no
/// readable record) at `now`.
pub open spec fn claimable(existing: Option<&LeaseRecord>, owner: Seq<char>, now: u64) -> bool {
    match existing {
        Some(rec) => !held_by_other(*rec, owner, now),
        None => true,
    }
}

/// Releasing `owner`'s lease deletes the file holding `current`.
pub open spec fn release_removes(current: Option<&LeaseRecord>, owner: Seq<char>) -> bool {
    match current {
        Some(rec) => rec.owner@ == owner,
        None => false,
    }
}

/// The lease file's record after `owner` releases its lease.
pub open spec fn after_release<'a>(current: Option<&'a LeaseRecord>, owner: Seq<char>) -> Option<&'a LeaseRecord> {
    if release_removes(current, owner) {
        None
    } else {
        current
    }
}

/// The lease file name for `key`: ASCII letters, digits, `-` and `_` kept,
/// every other char turned into `_`, `default` for an empty key, then
/// `.lease`.
pub fn sanitize(key: &str) -> (r: String)
    ensures
        r@ == sanitized_name(key@, ".lease"@),
{
    sanitize_with_suffix(key, ".lease")
}

/// Whether `owner` may claim a lease whose file currently holds `existing`
/// (`None` when the file is absent or unreadable): yes unless the record is
/// live at `now` and belongs to someone else.
pub fn may_claim(existing: Option<&LeaseRecord>, owner: &str, now_ms: u64) -> (r: bool)
    ensures
        r == claimable(existing, owner@, now_ms),
{
    match existing {
        Some(rec) => {
            let me = string_of(owner);
            !(rec.expires_at_ms > now_ms && rec.owner != me)
        },
        None => true,
    }
}

/// Whether a claim by `owner` won the race: the record read back after
/// writing names `owner` (an unreadable record means it did not).
pub fn claim_confirmed(after: Option<&LeaseRecord>, owner: &str) -> (r: bool)
    ensures
        r == match after {
            Some(rec) => rec.owner@ == owner@,
            None => false,
        },
{
    match after {
        Some(rec) => {
            let me = string_of(owner);
            rec.owner == me
        },
        None => false,
    }
}

/// Whether releasing `owner`'s lease should delete the lease file holding
/// `current`: only while the file still names `owner`.
pub fn should_remove_on_release(current: Option<&LeaseRecord>, owner: &str) -> (r: bool)
    ensures
        r == release_removes(current, owner@),
{
    claim_confirmed(current, owner)
}

/// The record a claim or renewal by `owner` writes at `now`: it expires
/// `ttl_ms` later.
pub fn lease_record(owner: &str, now_ms: u64, ttl_ms: u64) -> (r: LeaseRecord)
    requires
        now_ms + ttl_ms <= u64::MAX,
    ensures
        r.owner@ == owner@,
        r.expires_at_ms == now_ms + ttl_ms,
{
    LeaseRecord { owner: string_of(owner), expires_at_ms: now_ms + ttl_ms }
}

/// How long the renewer waits between renewals: a third of the TTL, and a
/// third of a second at least.
pub fn renew_interval_ms(ttl_ms: u64) -> (r: u64)
    ensures
        r == (if ttl_ms < 1000 { 1000 } else { ttl_ms }) / 3,
{
    let base = if ttl_ms < 1000 { 1000 } else { ttl_ms };
    base / 3
}

/// The owner tag `pid{pid}-{counter}-{now_ms}` a claimant writes into the
/// lease file.
pub open spec fn owner_tag_text(pid: u32, counter: u64, now_ms: u64) -> Seq<char> {
    "pid"@ + dec_text(pid as nat) + "-"@ + dec_text(counter as nat) + "-"@ + dec_text(now_ms as nat)
}

/// Build the owner tag `pid{pid}-{counter}-{now_ms}`.
pub fn owner_tag(pid: u32, counter: u64, now_ms: u64) -> (r: String)
    ensures
        r@ == owner_tag_text(pid, counter, now_ms),
{
    let mut s = string_of("pid");
    push_decimal_text(&mut s, pid as u64);
    s.append("-");
    push_decimal_text(&mut s, counter);
    s.append("-");
    push_decimal_text(&mut s, now_ms);
    s
}

/// The message of a contended claim on `key`.
pub fn contended_message(key: &str) -> (r: String)
    ensures
        r@ == "lease on '"@ + key@ + "' held by another live owner"@,
{
    let mut s = string_of("lease on '");
    s.append(key);
    s.append("' held by another live owner");
    s
}

/// At most one live owner: while a record is live, nobody but its owner may
/// claim the lease; once it has expired anyone may; its owner may always
/// claim it again; and a claim is confirmed only for the owner named in the
/// record read back.
pub proof fn law_lease_exclusive(rec: LeaseRecord, me: Seq<char>, other: Seq<char>, now: u64)
    ensures
        rec.expires_at_ms > now && rec.owner@ == other && other != me ==> held_by_other(rec, me, now),
        rec.expires_at_ms <= now ==> !held_by_other(rec, me, now),
        !held_by_other(rec, rec.owner@, now),
{
}

/// Releasing frees the lease: when the file names the releasing owner, the
/// release deletes it and afterwards anyone may claim the lease at any time;
/// when it names someone else, the release leaves it untouched, so that
/// owner's claim stands.
pub proof fn law_release_frees_lease(current: Option<&LeaseRecord>, owner: Seq<char>, other: Seq<char>, now: u64)
    ensures
        current matches Some(rec) && rec.owner@ == owner ==> after_release(current, owner) is None && claimable(
            after_release(current, owner),
            other,
            now,
        ),
        current matches Some(rec) && rec.owner@ != owner ==> after_release(current, owner) == current,
        after_release(current, owner) == current || after_release(current, owner) is None,
{
}

} // verus!
