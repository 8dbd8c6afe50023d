use jobqueue::job::{JobRow, JobStatus};
use jobqueue::store::JobStore;

#[test]
fn payload_survives_enqueue_claim_fetch() {
    let mut store = JobStore::new();
    let original: Vec<i64> = vec![3, 1, 4, 1, 5, 9, 2, 6];
    let payload = serde_json::to_string(&original).unwrap();
    let id = store.enqueue("email".to_string(), payload).unwrap();
    let claimed = store
        .claim_next(&"w1".to_string(), &"email".to_string(), i64::MAX)
        .expect("the fresh job is the only candidate");
    assert_eq!(claimed.id, id);
    let fetched = store.fetch_by_id(&id).expect("claimed job is fetchable");
    let decoded: Vec<i64> = serde_json::from_str(&fetched.payload).unwrap();
    assert_eq!(decoded, original);
    assert_eq!(fetched.status, JobStatus::Running);
}

#[test]
fn two_workers_poll_one_wins_then_acks() {
    let mut store = JobStore::new();
    let id = store
        .enqueue_at("email".to_string(), "{\"to\":\"a@b\"}".to_string(), 0)
        .unwrap();
    // Both workers tick against the same table; the store's atomic claim
    // decides, so exactly one of them gets the job.
    let (t1, w1) = store.poll_tick(&"w1".to_string(), &"email".to_string());
    let (t2, w2) = store.poll_tick(&"w2".to_string(), &"email".to_string());
    assert!(w1.is_some());
    assert!(w2.is_none());
    // Each tick reports the clock it judged eligibility at.
    assert!(t1 > 1_577_836_800 && t2 > 1_577_836_800);
    let job = w1.unwrap();
    assert_eq!(job.id, id);
    assert_eq!(job.lock_by, Some("w1".to_string()));
    assert!(store.ack(&"w1".to_string(), &id, 1234));
    assert_eq!(store.len(&"email".to_string()), 0);
}

#[test]
fn exhausted_job_becomes_dead_letter() {
    let mut store = JobStore::new();
    // A job whose table row carries a retry ceiling of two.
    store.jobs.push(JobRow {
        id: "b".to_string(),
        payload: "{}".to_string(),
        job_type: "email".to_string(),
        status: JobStatus::Pending,
        attempts: 0,
        max_attempts: 2,
        run_at: 0,
        last_error: None,
        lock_at: None,
        lock_by: None,
        done_at: None,
    });
    let id = "b".to_string();
    let worker = "w1".to_string();
    let email = "email".to_string();
    let mut now: i64 = 1000;
    // First failure: claimed from the initial Pending row.
    let job = store.claim_next(&worker, &email, now).expect("fresh job");
    assert_eq!(job.attempts, 0);
    store.update_fields(&id, JobStatus::Running, 1, None, Some(worker.clone()), Some(now), Some("boom".to_string()));
    store.reschedule(&id, 1, now).unwrap();
    // Second failure: the backoff elapses, the sweep requeues (1 < 2), and
    // the job is claimed and fails again.
    now += 2;
    assert_eq!(store.sweep_enqueue_scheduled(&email, 10).len(), 1);
    let job = store.claim_next(&worker, &email, now).expect("one retry left");
    assert_eq!(job.attempts, 1);
    store.update_fields(&id, JobStatus::Running, 2, None, Some(worker.clone()), Some(now), Some("boom".to_string()));
    store.reschedule(&id, 1, now).unwrap();
    // Third failure: the executor that was still processing records it.
    now += 2;
    store.update_fields(&id, JobStatus::Running, 3, None, Some(worker.clone()), Some(now), Some("boom".to_string()));
    store.reschedule(&id, 1, now).unwrap();
    let job = store.fetch_by_id(&id).unwrap();
    assert_eq!(job.status, JobStatus::Failed);
    assert_eq!(job.attempts, 3);
    now += 2;
    // Sweeps never bring it back, however often they run.
    let mut round = 0;
    while round < 3 {
        assert!(store.sweep_enqueue_scheduled(&email, 10).is_empty());
        assert!(store
            .sweep_reclaim_orphans(&email, 10, now + 10_000, 300)
            .is_empty());
        round += 1;
    }
    assert_eq!(store.fetch_by_id(&id).unwrap().status, JobStatus::Failed);
    // The dead letter remains discoverable on the Failed listing.
    let listed = store.list(JobStatus::Failed, 0);
    assert_eq!(listed.len(), 1);
    assert_eq!(listed[0].id, "b");
}
