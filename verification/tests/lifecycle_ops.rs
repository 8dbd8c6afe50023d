use jobqueue::job::JobStatus;
use jobqueue::store::{JobStore, StoreError};

fn claimed_job(store: &mut JobStore, id: &str, worker: &str) {
    store
        .insert(id.to_string(), "email".to_string(), "{}".to_string(), 0)
        .unwrap();
    assert!(store.conditional_claim(&id.to_string(), &worker.to_string()));
}

#[test]
fn ack_finishes_an_owned_job() {
    let mut store = JobStore::new();
    claimed_job(&mut store, "a", "w1");
    assert!(store.ack(&"w1".to_string(), &"a".to_string(), 777));
    let job = store.fetch_by_id(&"a".to_string()).unwrap();
    assert_eq!(job.status, JobStatus::Done);
    assert_eq!(job.done_at, Some(777));
    assert_eq!(store.len(&"email".to_string()), 0);
}

#[test]
fn ack_by_another_worker_changes_nothing() {
    let mut store = JobStore::new();
    claimed_job(&mut store, "a", "w1");
    let before = store.fetch_by_id(&"a".to_string()).unwrap();
    assert!(!store.ack(&"w2".to_string(), &"a".to_string(), 777));
    let after = store.fetch_by_id(&"a".to_string()).unwrap();
    assert_eq!(after.status, before.status);
    assert_eq!(after.lock_by, before.lock_by);
    assert_eq!(after.done_at, before.done_at);
    assert_eq!(after.attempts, before.attempts);
    assert_eq!(after.run_at, before.run_at);
    assert_eq!(after.payload, before.payload);
}

#[test]
fn kill_is_terminal() {
    let mut store = JobStore::new();
    claimed_job(&mut store, "a", "w1");
    assert!(store.kill(&"w1".to_string(), &"a".to_string(), 900));
    let job = store.fetch_by_id(&"a".to_string()).unwrap();
    assert_eq!(job.status, JobStatus::Killed);
    assert_eq!(job.done_at, Some(900));
    // Neither sweep revives a killed job.
    assert!(store.sweep_enqueue_scheduled(&"email".to_string(), 10).is_empty());
    assert_eq!(store.fetch_by_id(&"a".to_string()).unwrap().status, JobStatus::Killed);
}

#[test]
fn retry_requeues_immediately_without_bookkeeping() {
    let mut store = JobStore::new();
    claimed_job(&mut store, "a", "w1");
    assert!(store.retry(&"w1".to_string(), &"a".to_string()));
    let job = store.fetch_by_id(&"a".to_string()).unwrap();
    assert_eq!(job.status, JobStatus::Pending);
    assert!(job.lock_by.is_none());
    assert!(job.done_at.is_none());
    // No backoff and no attempt increment: the asymmetry with reschedule is
    // deliberate; retry is a manual requeue.
    assert_eq!(job.attempts, 0);
    assert_eq!(job.run_at, 0);
    // Any worker may take it again.
    assert!(store.conditional_claim(&"a".to_string(), &"w2".to_string()));
}

#[test]
fn retry_by_non_owner_is_refused() {
    let mut store = JobStore::new();
    claimed_job(&mut store, "a", "w1");
    assert!(!store.retry(&"w2".to_string(), &"a".to_string()));
    assert_eq!(store.fetch_by_id(&"a".to_string()).unwrap().status, JobStatus::Running);
}

#[test]
fn reschedule_applies_backoff() {
    let mut store = JobStore::new();
    claimed_job(&mut store, "a", "w1");
    let touched = store.reschedule(&"a".to_string(), 30, 1000).unwrap();
    assert!(touched);
    let job = store.fetch_by_id(&"a".to_string()).unwrap();
    assert_eq!(job.status, JobStatus::Failed);
    assert_eq!(job.run_at, 1030);
    assert!(job.lock_by.is_none());
    assert!(job.lock_at.is_none());
    assert!(job.done_at.is_none());
    // Not selectable before the backoff elapses, even via the sweep + claim
    // path: the sweep may requeue it, but selection still waits for run_at.
    store.sweep_enqueue_scheduled(&"email".to_string(), 10);
    assert!(store
        .claim_next(&"w2".to_string(), &"email".to_string(), 1029)
        .is_none());
    assert!(store
        .claim_next(&"w2".to_string(), &"email".to_string(), 1030)
        .is_some());
}

#[test]
fn reschedule_of_missing_id_is_a_noop() {
    let mut store = JobStore::new();
    let touched = store.reschedule(&"nope".to_string(), 30, 1000).unwrap();
    assert!(!touched);
}

#[test]
fn reschedule_rejects_overflowing_wait() {
    let mut store = JobStore::new();
    claimed_job(&mut store, "a", "w1");
    let err = store.reschedule(&"a".to_string(), u64::MAX, 1000).unwrap_err();
    assert_eq!(err, StoreError::TimestampOverflow);
    let err = store
        .reschedule(&"a".to_string(), i64::MAX as u64, 1)
        .unwrap_err();
    assert_eq!(err, StoreError::TimestampOverflow);
    // The failed call left the row alone.
    assert_eq!(store.fetch_by_id(&"a".to_string()).unwrap().status, JobStatus::Running);
}
