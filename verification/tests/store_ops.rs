use jobqueue::job::{JobRow, JobStatus};
use jobqueue::store::{JobStore, StoreError};

fn row(id: &str, job_type: &str, status: JobStatus) -> JobRow {
    JobRow {
        id: id.to_string(),
        payload: "{}".to_string(),
        job_type: job_type.to_string(),
        status,
        attempts: 0,
        max_attempts: 25,
        run_at: 0,
        last_error: None,
        lock_at: None,
        lock_by: None,
        done_at: None,
    }
}

#[test]
fn enqueue_creates_pending_record() {
    let mut store = JobStore::new();
    let id = store
        .enqueue("email".to_string(), "{\"to\":\"a@b\"}".to_string())
        .expect("enqueue");
    let job = store.fetch_by_id(&id).expect("record must exist");
    assert_eq!(job.status, JobStatus::Pending);
    assert_eq!(job.attempts, 0);
    assert!(job.lock_by.is_none());
    assert!(job.lock_at.is_none());
    assert!(job.done_at.is_none());
    assert_eq!(job.max_attempts, 25);
    assert_eq!(job.job_type, "email");
    assert_eq!(job.payload, "{\"to\":\"a@b\"}");
}

#[test]
fn enqueue_generates_distinct_ids() {
    let mut store = JobStore::new();
    let a = store.enqueue("email".to_string(), "1".to_string()).unwrap();
    let b = store.enqueue("email".to_string(), "2".to_string()).unwrap();
    assert_ne!(a, b);
    assert_eq!(a.len(), 36);
}

#[test]
fn enqueue_stamps_a_real_clock() {
    let mut store = JobStore::new();
    let id = store.enqueue("email".to_string(), "1".to_string()).unwrap();
    let job = store.fetch_by_id(&id).unwrap();
    // A frozen or zeroed clock would fail this: the wall clock is well past
    // 2020-01-01 and well before year 20000.
    assert!(job.run_at > 1_577_836_800);
    assert!(job.run_at < 568_971_820_800);
}

#[test]
fn insert_rejects_duplicate_id() {
    let mut store = JobStore::new();
    store
        .insert("a".to_string(), "email".to_string(), "1".to_string(), 0)
        .unwrap();
    let err = store
        .insert("a".to_string(), "email".to_string(), "2".to_string(), 0)
        .unwrap_err();
    assert_eq!(err, StoreError::DuplicateId);
    // The table is unchanged: still one row, with the first payload.
    assert_eq!(store.jobs.len(), 1);
    assert_eq!(store.fetch_by_id(&"a".to_string()).unwrap().payload, "1");
}

#[test]
fn fetch_by_id_misses_cleanly() {
    let store = JobStore::new();
    assert!(store.fetch_by_id(&"nope".to_string()).is_none());
}

#[test]
fn len_counts_pending_of_one_type() {
    let mut store = JobStore::new();
    store
        .insert("a".to_string(), "email".to_string(), "1".to_string(), 0)
        .unwrap();
    store
        .insert("b".to_string(), "email".to_string(), "2".to_string(), 0)
        .unwrap();
    store
        .insert("c".to_string(), "sms".to_string(), "3".to_string(), 0)
        .unwrap();
    store.jobs.push(row("d", "email", JobStatus::Done));
    assert_eq!(store.len(&"email".to_string()), 2);
    assert_eq!(store.len(&"sms".to_string()), 1);
    assert_eq!(store.count_pending(&"fax".to_string()), 0);
}

#[test]
fn update_fields_overwrites_execution_state() {
    let mut store = JobStore::new();
    store
        .insert("a".to_string(), "email".to_string(), "1".to_string(), 7)
        .unwrap();
    let touched = store.update_fields(
        &"a".to_string(),
        JobStatus::Failed,
        3,
        Some(99),
        Some("w1".to_string()),
        Some(50),
        Some("boom".to_string()),
    );
    assert!(touched);
    let job = store.fetch_by_id(&"a".to_string()).unwrap();
    assert_eq!(job.status, JobStatus::Failed);
    assert_eq!(job.attempts, 3);
    assert_eq!(job.done_at, Some(99));
    assert_eq!(job.lock_by, Some("w1".to_string()));
    assert_eq!(job.lock_at, Some(50));
    assert_eq!(job.last_error, Some("boom".to_string()));
    // Identity, payload, type, ceiling and due time are preserved.
    assert_eq!(job.payload, "1");
    assert_eq!(job.job_type, "email");
    assert_eq!(job.max_attempts, 25);
    assert_eq!(job.run_at, 7);
}

#[test]
fn update_fields_reports_missing_id() {
    let mut store = JobStore::new();
    let touched = store.update_fields(
        &"ghostly".to_string(),
        JobStatus::Done,
        0,
        None,
        None,
        None,
        None,
    );
    assert!(!touched);
}

#[test]
fn list_pages_by_ten_in_creation_order() {
    let mut store = JobStore::new();
    let mut i = 0;
    while i < 12 {
        store
            .insert(format!("p{}", i), "email".to_string(), "x".to_string(), 0)
            .unwrap();
        i += 1;
    }
    store.jobs.push(row("f0", "email", JobStatus::Failed));
    let first = store.list(JobStatus::Pending, 0);
    assert_eq!(first.len(), 10);
    assert_eq!(first[0].id, "p0");
    assert_eq!(first[9].id, "p9");
    let second = store.list(JobStatus::Pending, 1);
    assert_eq!(second.len(), 2);
    assert_eq!(second[0].id, "p10");
    let third = store.list(JobStatus::Pending, 2);
    assert!(third.is_empty());
    let failed = store.list(JobStatus::Failed, 0);
    assert_eq!(failed.len(), 1);
    assert_eq!(failed[0].id, "f0");
}
