use jobqueue::job::JobStatus;
use jobqueue::store::JobStore;

fn seed(store: &mut JobStore, id: &str, job_type: &str, run_at: i64) {
    store
        .insert(id.to_string(), job_type.to_string(), "{}".to_string(), run_at)
        .unwrap();
}

#[test]
fn claim_goes_to_exactly_one_worker() {
    let mut store = JobStore::new();
    seed(&mut store, "a", "email", 0);
    assert!(store.conditional_claim(&"a".to_string(), &"w1".to_string()));
    assert!(!store.conditional_claim(&"a".to_string(), &"w2".to_string()));
    let job = store.fetch_by_id(&"a".to_string()).unwrap();
    assert_eq!(job.status, JobStatus::Running);
    assert_eq!(job.lock_by, Some("w1".to_string()));
}

#[test]
fn many_claimants_one_winner() {
    let mut store = JobStore::new();
    seed(&mut store, "a", "email", 0);
    let mut wins = 0;
    let mut i = 0;
    while i < 8 {
        if store.conditional_claim(&"a".to_string(), &format!("w{}", i)) {
            wins += 1;
        }
        i += 1;
    }
    assert_eq!(wins, 1);
    // The winner is the first claimant: the store serializes the attempts.
    assert_eq!(
        store.fetch_by_id(&"a".to_string()).unwrap().lock_by,
        Some("w0".to_string())
    );
}

#[test]
fn claim_of_missing_id_fails() {
    let mut store = JobStore::new();
    assert!(!store.conditional_claim(&"nope".to_string(), &"w1".to_string()));
}

#[test]
fn claim_next_takes_earliest_created() {
    let mut store = JobStore::new();
    seed(&mut store, "first", "email", 0);
    seed(&mut store, "second", "email", 0);
    let job = store
        .claim_next(&"w1".to_string(), &"email".to_string(), 100)
        .expect("a job is due");
    assert_eq!(job.id, "first");
    assert_eq!(job.status, JobStatus::Running);
    assert_eq!(job.lock_by, Some("w1".to_string()));
    // The second job is still there for the next tick.
    let job = store
        .claim_next(&"w1".to_string(), &"email".to_string(), 100)
        .expect("one more is due");
    assert_eq!(job.id, "second");
}

#[test]
fn claim_next_waits_for_run_at() {
    let mut store = JobStore::new();
    seed(&mut store, "later", "email", 500);
    assert!(store
        .claim_next(&"w1".to_string(), &"email".to_string(), 499)
        .is_none());
    // At the due second itself the job is eligible.
    assert!(store
        .claim_next(&"w1".to_string(), &"email".to_string(), 500)
        .is_some());
}

#[test]
fn claim_next_is_scoped_to_the_job_type() {
    let mut store = JobStore::new();
    seed(&mut store, "a", "email", 0);
    // A pending, due job of another type must never be claimed, however the
    // selection predicate is grouped.
    assert!(store
        .claim_next(&"w1".to_string(), &"sms".to_string(), 100)
        .is_none());
    assert_eq!(store.fetch_by_id(&"a".to_string()).unwrap().status, JobStatus::Pending);
}

#[test]
fn failed_candidate_blocks_the_tick_until_swept() {
    let mut store = JobStore::new();
    seed(&mut store, "a", "email", 0);
    store.reschedule(&"a".to_string(), 0, 0).unwrap();
    // The job is Failed with retries left and due, so selection finds it,
    // but the atomic claim takes only Pending rows: the tick yields nothing.
    assert!(store
        .claim_next(&"w1".to_string(), &"email".to_string(), 100)
        .is_none());
    // Once the scheduled sweep returns it to Pending, a claim succeeds.
    let reset = store.sweep_enqueue_scheduled(&"email".to_string(), 10);
    assert_eq!(reset.len(), 1);
    assert!(store
        .claim_next(&"w1".to_string(), &"email".to_string(), 100)
        .is_some());
}

#[test]
fn running_job_is_not_selected_again() {
    let mut store = JobStore::new();
    seed(&mut store, "a", "email", 0);
    assert!(store
        .claim_next(&"w1".to_string(), &"email".to_string(), 100)
        .is_some());
    assert!(store
        .claim_next(&"w2".to_string(), &"email".to_string(), 100)
        .is_none());
}
