use jobqueue::retry::{Backoff, Decision, RetryPolicy};
use jobqueue::store::{JobStatus, JobStore, StoreError};

fn ns() -> String {
    "reminder::DailyReminder".to_string()
}

#[test]
fn enqueue_twice_keeps_one_pending_row() {
    let mut s = JobStore::new();
    assert_eq!(s.enqueue(ns(), 120, 120), Ok(0));
    assert_eq!(s.enqueue(ns(), 120, 999), Err(StoreError::Duplicate));
    assert_eq!(s.len(), 1);
    let j = s.get(0).unwrap();
    assert_eq!(j.status, JobStatus::Pending);
    assert_eq!(j.payload, 120);
    assert_eq!(j.attempts, 0);
    assert!(s.contains_key(&ns(), 120));
    assert!(!s.contains_key(&"other".to_string(), 120));
}

#[test]
fn same_time_in_other_namespace_is_not_a_duplicate() {
    let mut s = JobStore::new();
    assert_eq!(s.enqueue(ns(), 120, 120), Ok(0));
    assert_eq!(s.enqueue("other".to_string(), 120, 120), Ok(1));
    assert_eq!(s.get(1).unwrap().id, 1);
    assert!(s.get(2).is_none());
}

#[test]
fn lease_takes_oldest_due_first() {
    let mut s = JobStore::new();
    s.enqueue(ns(), 360, 360).unwrap();
    s.enqueue(ns(), 120, 120).unwrap();
    s.enqueue("other".to_string(), 60, 60).unwrap();
    s.enqueue(ns(), 240, 240).unwrap();
    let j = s.lease(&ns(), 7, 30, 1000).unwrap();
    assert_eq!(j.scheduled_for, 120);
    assert_eq!(j.status, JobStatus::Leased);
    assert_eq!(j.lease_owner, Some(7));
    assert_eq!(j.lease_expires_at, Some(1030));
    assert_eq!(j.attempts, 1);
    assert_eq!(s.lease(&ns(), 8, 30, 1000).unwrap().scheduled_for, 240);
    assert_eq!(s.lease(&ns(), 9, 30, 1000).unwrap().scheduled_for, 360);
    assert!(s.lease(&ns(), 9, 30, 1000).is_none());
}

#[test]
fn lease_on_empty_store_is_none() {
    let mut s = JobStore::new();
    assert!(s.lease(&ns(), 1, 30, 0).is_none());
}

#[test]
fn active_lease_is_not_taken_by_another_worker() {
    let mut s = JobStore::new();
    s.enqueue(ns(), 120, 120).unwrap();
    let j = s.lease(&ns(), 1, 30, 100).unwrap();
    assert_eq!(j.lease_expires_at, Some(130));
    assert!(s.lease(&ns(), 2, 30, 100).is_none());
    assert!(s.lease(&ns(), 2, 30, 130).is_none());
}

#[test]
fn expired_lease_becomes_leasable_strictly_after_expiry() {
    let mut s = JobStore::new();
    s.enqueue(ns(), 120, 120).unwrap();
    s.lease(&ns(), 1, 30, 100).unwrap();
    assert!(s.lease(&ns(), 2, 30, 130).is_none());
    let j = s.lease(&ns(), 2, 30, 131).unwrap();
    assert_eq!(j.lease_owner, Some(2));
    assert_eq!(j.lease_expires_at, Some(161));
    assert_eq!(j.attempts, 2);
}

#[test]
fn lease_expiry_saturates() {
    let mut s = JobStore::new();
    s.enqueue(ns(), 120, 120).unwrap();
    let j = s.lease(&ns(), 1, u64::MAX, 10).unwrap();
    assert_eq!(j.lease_expires_at, Some(u64::MAX));
}

#[test]
fn acknowledge_is_idempotent() {
    let mut s = JobStore::new();
    s.enqueue(ns(), 120, 120).unwrap();
    s.lease(&ns(), 1, 30, 100).unwrap();
    assert_eq!(s.acknowledge(0), Ok(()));
    let first = s.get(0).unwrap();
    assert_eq!(first.status, JobStatus::Succeeded);
    assert_eq!(first.lease_owner, None);
    assert_eq!(s.acknowledge(0), Ok(()));
    let second = s.get(0).unwrap();
    assert_eq!(second.status, JobStatus::Succeeded);
    assert_eq!(second.attempts, 1);
    assert!(s.lease(&ns(), 1, 30, 1000).is_none());
}

#[test]
fn acknowledge_errors() {
    let mut s = JobStore::new();
    assert_eq!(s.acknowledge(0), Err(StoreError::NotFound));
    s.enqueue(ns(), 120, 120).unwrap();
    assert_eq!(s.acknowledge(0), Err(StoreError::NotLeased));
    assert_eq!(s.get(0).unwrap().status, JobStatus::Pending);
}

#[test]
fn fail_retries_with_delay_then_gives_up() {
    let policy = RetryPolicy { max_attempts: 2, backoff: Backoff::Fixed { delay: 10 } };
    let mut s = JobStore::new();
    s.enqueue(ns(), 120, 120).unwrap();
    s.lease(&ns(), 1, 30, 100).unwrap();
    assert_eq!(s.fail(0, "boom 1".to_string(), &policy, 105), Ok(Decision::Retry { delay: 10 }));
    let j = s.get(0).unwrap();
    assert_eq!(j.status, JobStatus::Pending);
    assert_eq!(j.not_before, Some(115));
    assert_eq!(j.lease_owner, None);
    assert_eq!(j.last_error, Some("boom 1".to_string()));
    assert!(s.lease(&ns(), 1, 30, 114).is_none());
    assert_eq!(s.lease(&ns(), 1, 30, 115).unwrap().attempts, 2);
    assert_eq!(s.fail(0, "boom 2".to_string(), &policy, 120), Ok(Decision::GiveUp));
    let j = s.get(0).unwrap();
    assert_eq!(j.status, JobStatus::Failed);
    assert_eq!(j.attempts, 2);
    assert_eq!(j.last_error, Some("boom 2".to_string()));
    assert!(s.lease(&ns(), 1, 30, 10_000).is_none());
    assert_eq!(s.fail(0, "again".to_string(), &policy, 130), Err(StoreError::NotLeased));
    assert_eq!(s.acknowledge(0), Err(StoreError::NotLeased));
}

#[test]
fn fail_errors() {
    let policy = RetryPolicy { max_attempts: 2, backoff: Backoff::Fixed { delay: 0 } };
    let mut s = JobStore::new();
    assert_eq!(s.fail(3, "x".to_string(), &policy, 0), Err(StoreError::NotFound));
    s.enqueue(ns(), 120, 120).unwrap();
    assert_eq!(s.fail(0, "x".to_string(), &policy, 0), Err(StoreError::NotLeased));
}

#[test]
fn failed_row_keeps_its_key() {
    let policy = RetryPolicy { max_attempts: 1, backoff: Backoff::Fixed { delay: 0 } };
    let mut s = JobStore::new();
    s.enqueue(ns(), 120, 120).unwrap();
    s.lease(&ns(), 1, 30, 100).unwrap();
    assert_eq!(s.fail(0, "x".to_string(), &policy, 101), Ok(Decision::GiveUp));
    assert_eq!(s.enqueue(ns(), 120, 120), Err(StoreError::Duplicate));
}
