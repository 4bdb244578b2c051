use malkuth::lock::{flock_failure, pg_lock_outcome};
use malkuth::LockError;
use malkuth::hashing::{hash64, key_to_i64};
use malkuth::lease::{self, claim_confirmed, may_claim, owner_tag, renew_interval_ms, LeaseRecord};
use malkuth::leader::{epoch_stamp, LeaseLeaderElector};
use malkuth::lock::{self, FileLock};
use std::path::PathBuf;

#[test]
fn lock_sanitize_basic() {
    assert_eq!(lock::sanitize("hello"), "hello.lock");
    assert_eq!(lock::sanitize(""), "default.lock");
    assert_eq!(lock::sanitize("a/b c"), "a_b_c.lock");
}

#[test]
fn lease_sanitize_replaces_each_char() {
    assert_eq!(lease::sanitize("dév-1_x"), "d_v-1_x.lease");
    assert_eq!(lease::sanitize(""), "default.lease");
}

#[test]
fn key_hash_is_stable() {
    assert_eq!(key_to_i64("entelecheia"), key_to_i64("entelecheia"));
    assert_ne!(key_to_i64("a"), key_to_i64("b"));
}

#[test]
fn fnv1a_known_values() {
    assert_eq!(hash64(""), 0xcbf2_9ce4_8422_2325);
    assert_eq!(hash64("a"), 0xaf63_dc4c_8601_ec8c);
    assert_eq!(key_to_i64("a"), 0xaf63_dc4c_8601_ec8cu64 as i64);
}

#[test]
fn lease_claims_exclusive_while_live() {
    let rec = LeaseRecord { owner: "pid1-0-5".to_string(), expires_at_ms: 1000 };
    assert!(!may_claim(Some(&rec), "pid2-0-6", 999));
    assert!(may_claim(Some(&rec), "pid1-0-5", 999));
    assert!(may_claim(Some(&rec), "pid2-0-6", 1000));
    assert!(may_claim(None, "anyone", 0));
    assert!(claim_confirmed(Some(&rec), "pid1-0-5"));
    assert!(!claim_confirmed(Some(&rec), "pid2-0-6"));
    assert!(!claim_confirmed(None, "pid1-0-5"));
}

#[test]
fn lease_owner_tag_and_renew_interval() {
    assert_eq!(owner_tag(42, 7, 1234), "pid42-7-1234");
    assert_eq!(renew_interval_ms(0), 333);
    assert_eq!(renew_interval_ms(3000), 1000);
    assert_eq!(epoch_stamp(0), "epoch:0");
    assert_eq!(epoch_stamp(1700000000), "epoch:1700000000");
}

#[test]
fn file_lock_keeps_root() {
    let l = FileLock::new(PathBuf::from("/tmp/x"));
    assert_eq!(l.root(), &PathBuf::from("/tmp/x"));
}

#[test]
fn elector_terms_advance_and_resign_clears() {
    let mut e = LeaseLeaderElector::new(
        PathBuf::from("/tmp/l"),
        "device-a".to_string(),
        "leader-A".to_string(),
        "device-a".to_string(),
    );
    assert!(!e.renew());
    assert!(e.current().is_none());
    assert!(e.on_acquired(5_000_000_000, "epoch:1".to_string()));
    let a = e.current().unwrap();
    assert_eq!(a.term, 1);
    assert_eq!(a.leader_instance_id, "leader-A");
    assert_eq!(a.lease_ttl_secs, u32::MAX);
    assert!(e.renew());
    assert!(e.resign());
    assert!(e.current().is_none());
    assert!(e.on_acquired(2, "epoch:2".to_string()));
    assert_eq!(e.current().unwrap().term, 2);
    assert_eq!(e.current().unwrap().lease_ttl_secs, 2);
}

#[test]
fn lock_failures_are_classified() {
    match flock_failure("k", Some(11), 11, std::io::Error::other("x")) {
        LockError::Contended(m) => assert_eq!(m, "flock on 'k' is held by another live process"),
        other => panic!("unexpected {other:?}"),
    }
    assert!(matches!(flock_failure("k", Some(2), 11, std::io::Error::other("x")), LockError::Io(_)));
    assert!(matches!(flock_failure("k", None, 11, std::io::Error::other("x")), LockError::Io(_)));
    assert_eq!(pg_lock_outcome("a", true).unwrap(), key_to_i64("a"));
    match pg_lock_outcome("a", false) {
        Err(LockError::Contended(m)) => assert_eq!(m, "pg advisory lock on 'a' held by another live session"),
        other => panic!("unexpected {other:?}"),
    }
}

#[test]
fn sanitize_basic() {
    assert_eq!(lock::sanitize("hello"), "hello.lock");
    assert_eq!(lock::sanitize(""), "default.lock");
    assert_eq!(lock::sanitize("a/b c"), "a_b_c.lock");
}

#[test]
fn release_then_claim() {
    let mine = LeaseRecord { owner: "pid1-0-5".to_string(), expires_at_ms: 10_000 };
    // the owner's release deletes the file; afterwards another owner may claim
    assert!(lease::should_remove_on_release(Some(&mine), "pid1-0-5"));
    assert!(may_claim(None, "pid2-0-6", 0));
    // a release by someone else leaves the live record, which still blocks others
    assert!(!lease::should_remove_on_release(Some(&mine), "pid3-0-7"));
    assert!(!may_claim(Some(&mine), "pid3-0-7", 0));
    assert!(!lease::should_remove_on_release(None, "pid1-0-5"));
}
