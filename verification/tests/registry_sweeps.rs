use jobqueue::job::{JobRow, JobStatus};
use jobqueue::store::JobStore;

fn failed_row(id: &str, attempts: u32, max_attempts: u32, lock_at: Option<i64>) -> JobRow {
    JobRow {
        id: id.to_string(),
        payload: "{}".to_string(),
        job_type: "email".to_string(),
        status: JobStatus::Failed,
        attempts,
        max_attempts,
        run_at: 0,
        last_error: Some("boom".to_string()),
        lock_at,
        lock_by: None,
        done_at: None,
    }
}

fn running_row(id: &str, worker: &str, lock_at: Option<i64>) -> JobRow {
    JobRow {
        id: id.to_string(),
        payload: "{}".to_string(),
        job_type: "email".to_string(),
        status: JobStatus::Running,
        attempts: 0,
        max_attempts: 25,
        run_at: 0,
        last_error: None,
        lock_at,
        lock_by: Some(worker.to_string()),
        done_at: None,
    }
}

#[test]
fn heartbeat_upserts_by_worker_id() {
    let mut store = JobStore::new();
    store.heartbeat(
        &"w1".to_string(),
        &"email".to_string(),
        &"memstore".to_string(),
        100,
    );
    store.heartbeat(
        &"w2".to_string(),
        &"email".to_string(),
        &"memstore".to_string(),
        100,
    );
    store.heartbeat(
        &"w1".to_string(),
        &"email".to_string(),
        &"memstore".to_string(),
        200,
    );
    assert_eq!(store.workers.len(), 2);
    assert_eq!(store.workers[0].id, "w1");
    assert_eq!(store.workers[0].last_seen, 200);
    assert_eq!(store.workers[1].id, "w2");
    assert_eq!(store.workers[1].last_seen, 100);
}

#[test]
fn scheduled_sweep_is_bounded_by_count() {
    let mut store = JobStore::new();
    store.jobs.push(failed_row("f1", 1, 25, Some(10)));
    store.jobs.push(failed_row("f2", 1, 25, Some(20)));
    store.jobs.push(failed_row("f3", 1, 25, Some(30)));
    let reset = store.sweep_enqueue_scheduled(&"email".to_string(), 1);
    assert_eq!(reset.len(), 1);
    // Exactly one row moved, the other two are still Failed.
    let mut pending = 0;
    for row in &store.jobs {
        if row.status == JobStatus::Pending {
            pending += 1;
        }
    }
    assert_eq!(pending, 1);
}

#[test]
fn scheduled_sweep_recovers_oldest_lock_first() {
    let mut store = JobStore::new();
    store.jobs.push(failed_row("f1", 1, 25, Some(30)));
    store.jobs.push(failed_row("f2", 1, 25, Some(10)));
    store.jobs.push(failed_row("f3", 1, 25, Some(20)));
    let reset = store.sweep_enqueue_scheduled(&"email".to_string(), 2);
    assert_eq!(reset, vec![1, 2]);
    let f2 = store.fetch_by_id(&"f2".to_string()).unwrap();
    assert_eq!(f2.status, JobStatus::Pending);
    assert!(f2.lock_at.is_none());
    assert!(f2.lock_by.is_none());
    assert!(f2.done_at.is_none());
    assert_eq!(store.fetch_by_id(&"f1".to_string()).unwrap().status, JobStatus::Failed);
}

#[test]
fn scheduled_sweep_skips_exhausted_and_foreign_jobs() {
    let mut store = JobStore::new();
    store.jobs.push(failed_row("dead", 25, 25, Some(10)));
    let mut foreign = failed_row("sms1", 1, 25, Some(5));
    foreign.job_type = "sms".to_string();
    store.jobs.push(foreign);
    let reset = store.sweep_enqueue_scheduled(&"email".to_string(), 10);
    assert!(reset.is_empty());
    assert_eq!(store.fetch_by_id(&"dead".to_string()).unwrap().status, JobStatus::Failed);
    assert_eq!(store.fetch_by_id(&"sms1".to_string()).unwrap().status, JobStatus::Failed);
}

#[test]
fn orphan_sweep_reclaims_only_stale_owners() {
    let now: i64 = 10_000;
    let mut store = JobStore::new();
    store.jobs.push(running_row("stale", "w1", Some(1)));
    store.jobs.push(running_row("fresh", "w2", Some(2)));
    // w1 was last seen five minutes and one second ago; w2 one minute ago.
    store.heartbeat(&"w1".to_string(), &"email".to_string(), &"m".to_string(), now - 301);
    store.heartbeat(&"w2".to_string(), &"email".to_string(), &"m".to_string(), now - 60);
    let reset = store.sweep_reclaim_orphans(&"email".to_string(), 10, now, 300);
    assert_eq!(reset, vec![0]);
    let stale = store.fetch_by_id(&"stale".to_string()).unwrap();
    assert_eq!(stale.status, JobStatus::Pending);
    assert!(stale.lock_by.is_none());
    assert!(stale.lock_at.is_none());
    assert_eq!(stale.last_error, Some("Job was abandoned".to_string()));
    let fresh = store.fetch_by_id(&"fresh".to_string()).unwrap();
    assert_eq!(fresh.status, JobStatus::Running);
    assert_eq!(fresh.lock_by, Some("w2".to_string()));
}

#[test]
fn orphan_sweep_needs_strictly_older_than_cutoff() {
    let now: i64 = 10_000;
    let mut store = JobStore::new();
    store.jobs.push(running_row("edge", "w1", None));
    // Last seen exactly at the cutoff: not strictly older, so not an orphan.
    store.heartbeat(&"w1".to_string(), &"email".to_string(), &"m".to_string(), now - 300);
    let reset = store.sweep_reclaim_orphans(&"email".to_string(), 10, now, 300);
    assert!(reset.is_empty());
    assert_eq!(store.fetch_by_id(&"edge".to_string()).unwrap().status, JobStatus::Running);
}

#[test]
fn orphan_sweep_ignores_unknown_owners_and_other_types() {
    let now: i64 = 10_000;
    let mut store = JobStore::new();
    // No worker row at all: the join finds nothing, the job stays Running.
    store.jobs.push(running_row("unregistered", "ghost", None));
    let mut other = running_row("other", "w1", None);
    other.job_type = "sms".to_string();
    store.jobs.push(other);
    store.heartbeat(&"w1".to_string(), &"sms".to_string(), &"m".to_string(), 0);
    let reset = store.sweep_reclaim_orphans(&"email".to_string(), 10, now, 300);
    assert!(reset.is_empty());
}

#[test]
fn orphan_sweep_recovers_oldest_lock_first_and_is_bounded() {
    let now: i64 = 10_000;
    let mut store = JobStore::new();
    store.jobs.push(running_row("r1", "w1", Some(50)));
    store.jobs.push(running_row("r2", "w1", Some(40)));
    store.heartbeat(&"w1".to_string(), &"email".to_string(), &"m".to_string(), 0);
    let reset = store.sweep_reclaim_orphans(&"email".to_string(), 1, now, 300);
    assert_eq!(reset, vec![1]);
    assert_eq!(store.fetch_by_id(&"r1".to_string()).unwrap().status, JobStatus::Running);
    assert_eq!(store.fetch_by_id(&"r2".to_string()).unwrap().status, JobStatus::Pending);
}
