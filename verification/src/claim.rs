//! The claim protocol: how independent workers polling the same table agree
//! on ownership. Candidate selection is an advisory read of the earliest
//! eligible row; the claim itself is a single atomic conditional update, and
//! only it decides ownership. One invocation of the pair is a poll tick.

use crate::ambient;
use crate::job::{
    claimable, claimed, clone_opt_string, eligible, JobRow, JobStatus, JobView,
};
use crate::store::{JobStore, StoreView};
use vstd::prelude::*;

verus! {

/// Row `i` is the candidate of the claim protocol: the earliest-created row
/// that is eligible for the given worker type at time `now`.
pub open spec fn first_eligible_at(s: StoreView, job_type: Seq<char>, now: int, i: int) -> bool {
    &&& 0 <= i < s.jobs.len()
    &&& eligible(s.jobs[i], job_type, now)
    &&& forall|j: int| 0 <= j < i ==> !eligible(s.jobs[j], job_type, now)
}

/// What one atomic conditional claim does to the table: every row that
/// carries the id and is still claimable becomes owned by the worker, and no
/// other row moves.
pub open spec fn claim_transition(
    pre: StoreView,
    post: StoreView,
    id: Seq<char>,
    worker: Seq<char>,
) -> bool {
    &&& post.workers == pre.workers
    &&& post.jobs.len() == pre.jobs.len()
    &&& forall|i: int|
        0 <= i < pre.jobs.len() ==> post.jobs[i] == (if pre.jobs[i].id == id && claimable(
            pre.jobs[i],
        ) {
            claimed(pre.jobs[i], worker)
        } else {
            pre.jobs[i]
        })
}

/// Whether a conditional claim against the given id would take a row.
pub open spec fn claim_succeeds(s: StoreView, id: Seq<char>) -> bool {
    exists|i: int| 0 <= i < s.jobs.len() && s.jobs[i].id == id && claimable(s.jobs[i])
}

/// Spec image of an optional returned row.
pub open spec fn opt_row_view(r: Option<JobRow>) -> Option<JobView> {
    match r {
        Option::Some(row) => Option::Some(row@),
        Option::None => Option::None,
    }
}

/// What one poll tick does: either nothing was both selected and claimable
/// and the store is untouched, or the candidate row was claimable, is now
/// owned by the worker, and is handed back.
pub open spec fn poll_outcome(
    pre: StoreView,
    post: StoreView,
    worker: Seq<char>,
    job_type: Seq<char>,
    now: int,
    r: Option<JobView>,
) -> bool {
    &&& post.workers == pre.workers
    &&& (r is None <==> !(exists|i: int|
        #[trigger] first_eligible_at(pre, job_type, now, i) && claimable(pre.jobs[i])))
    &&& (r is None ==> post == pre)
    &&& (r matches Some(rv) ==> exists|i: int|
        #[trigger] first_eligible_at(pre, job_type, now, i) && claimable(pre.jobs[i]) && rv
            == claimed(pre.jobs[i], worker) && post.jobs == pre.jobs.update(i, rv))
}

/// Whether this row may be selected as a candidate at time `now`.
fn row_eligible(row: &JobRow, job_type: &String, now: i64) -> (r: bool)
    ensures
        r == eligible(row@, job_type@, now as int),
{
    let status_ok = match row.status {
        JobStatus::Pending => true,
        JobStatus::Failed => row.attempts < row.max_attempts,
        _ => false,
    };
    status_ok && row.run_at <= now && row.job_type == *job_type
}

impl JobStore {
    /// Candidate selection, the advisory first step of the claim protocol:
    /// the earliest-created row that is `Pending`, or `Failed` with retries
    /// left, of the given type and due at `now`. The read takes no lock; the
    /// row may be gone by the time it is claimed, and that is benign.
    pub fn select_candidate(&self, job_type: &String, now: i64) -> (r: Option<usize>)
        ensures
            match r {
                Some(i) => first_eligible_at(self@, job_type@, now as int, i as int),
                None => forall|j: int|
                    0 <= j < self@.jobs.len() ==> !eligible(self@.jobs[j], job_type@, now as int),
            },
    {
        let n = self.jobs.len();
        let mut i: usize = 0;
        while i < n
            invariant
                n == self.jobs.len(),
                0 <= i <= n,
                forall|j: int| 0 <= j < i ==> !eligible(self@.jobs[j], job_type@, now as int),
            decreases n - i,
        {
            if row_eligible(&self.jobs[i], job_type, now) {
                return Some(i);
            }
            i += 1;
        }
        None
    }

    /// The atomic second step: take the row with the given id for the given
    /// worker, but only if it is still `Pending` and owned by nobody. This
    /// single conditional update is what makes cross-worker exclusivity hold;
    /// the result says whether any row was taken.
    pub fn conditional_claim(&mut self, job_id: &String, worker_id: &String) -> (r: bool)
        ensures
            claim_transition(old(self)@, final(self)@, job_id@, worker_id@),
            r == claim_succeeds(old(self)@, job_id@),
    {
        let n = self.jobs.len();
        let mut i: usize = 0;
        let mut won = false;
        let ghost mut hit_at: int = 0;
        while i < n
            invariant
                n == self.jobs.len(),
                0 <= i <= n,
                self@.workers == old(self)@.workers,
                self@.jobs.len() == old(self)@.jobs.len(),
                forall|j: int|
                    0 <= j < i ==> self@.jobs[j] == (if old(self)@.jobs[j].id == job_id@
                        && claimable(old(self)@.jobs[j]) {
                        claimed(old(self)@.jobs[j], worker_id@)
                    } else {
                        old(self)@.jobs[j]
                    }),
                forall|j: int| i <= j < n ==> self@.jobs[j] == old(self)@.jobs[j],
                won ==> 0 <= hit_at < i && old(self)@.jobs[hit_at].id == job_id@ && claimable(
                    old(self)@.jobs[hit_at],
                ),
                !won ==> forall|j: int|
                    0 <= j < i ==> !(old(self)@.jobs[j].id == job_id@ && claimable(
                        old(self)@.jobs[j],
                    )),
            decreases n - i,
        {
            let hit = self.jobs[i].id == *job_id && matches!(
                self.jobs[i].status,
                JobStatus::Pending,
            ) && self.jobs[i].lock_by.is_none();
            if hit {
                let ghost pre_jobs = self@.jobs;
                let updated = JobRow {
                    id: self.jobs[i].id.clone(),
                    payload: self.jobs[i].payload.clone(),
                    job_type: self.jobs[i].job_type.clone(),
                    status: JobStatus::Running,
                    attempts: self.jobs[i].attempts,
                    max_attempts: self.jobs[i].max_attempts,
                    run_at: self.jobs[i].run_at,
                    last_error: clone_opt_string(&self.jobs[i].last_error),
                    lock_at: self.jobs[i].lock_at,
                    lock_by: Some(worker_id.clone()),
                    done_at: self.jobs[i].done_at,
                };
                proof {
                    assert(updated@ =~= claimed(old(self)@.jobs[i as int], worker_id@));
                }
                self.jobs[i] = updated;
                won = true;
                proof {
                    hit_at = i as int;
                    assert(self@.jobs =~= pre_jobs.update(i as int, updated@));
                    assert(old(self)@.jobs[i as int].id == job_id@ && claimable(
                        old(self)@.jobs[i as int],
                    ));
                }
            }
            i += 1;
        }
        proof {
            if won {
                assert(0 <= hit_at < old(self)@.jobs.len() && old(self)@.jobs[hit_at].id == job_id@
                    && claimable(old(self)@.jobs[hit_at]));
                assert(claim_succeeds(old(self)@, job_id@));
            } else if claim_succeeds(old(self)@, job_id@) {
                let j = choose|j: int|
                    0 <= j < old(self)@.jobs.len() && old(self)@.jobs[j].id == job_id@ && claimable(
                        old(self)@.jobs[j],
                    );
                assert(!(old(self)@.jobs[j].id == job_id@ && claimable(old(self)@.jobs[j])));
            }
        }
        won
    }

    /// One full claim attempt at time `now`: select the candidate, try the
    /// atomic claim on it, and hand back the now-owned row on success.
    /// Returning `None` means "nothing claimed this tick" — the caller must
    /// not retry before the next tick.
    pub fn claim_next(&mut self, worker_id: &String, job_type: &String, now: i64) -> (r: Option<
        JobRow,
    >)
        ensures
            poll_outcome(
                old(self)@,
                final(self)@,
                worker_id@,
                job_type@,
                now as int,
                opt_row_view(r),
            ),
    {
        match self.select_candidate(job_type, now) {
            None => {
                proof {
                    assert forall|i: int| !(
                        #[trigger] first_eligible_at(self@, job_type@, now as int, i)
                            && claimable(self@.jobs[i])) by {
                        if first_eligible_at(self@, job_type@, now as int, i) {
                            assert(!eligible(self@.jobs[i], job_type@, now as int));
                        }
                    }
                }
                None
            },
            Some(i) => {
                let hit = matches!(self.jobs[i].status, JobStatus::Pending)
                    && self.jobs[i].lock_by.is_none();
                if hit {
                    let ghost pre = self@;
                    let updated = JobRow {
                        id: self.jobs[i].id.clone(),
                        payload: self.jobs[i].payload.clone(),
                        job_type: self.jobs[i].job_type.clone(),
                        status: JobStatus::Running,
                        attempts: self.jobs[i].attempts,
                        max_attempts: self.jobs[i].max_attempts,
                        run_at: self.jobs[i].run_at,
                        last_error: clone_opt_string(&self.jobs[i].last_error),
                        lock_at: self.jobs[i].lock_at,
                        lock_by: Some(worker_id.clone()),
                        done_at: self.jobs[i].done_at,
                    };
                    let out = updated.clone();
                    proof {
                        assert(updated@ =~= claimed(pre.jobs[i as int], worker_id@));
                    }
                    self.jobs[i] = updated;
                    proof {
                        assert(self@.jobs =~= pre.jobs.update(i as int, updated@));
                        assert(first_eligible_at(pre, job_type@, now as int, i as int)
                            && claimable(pre.jobs[i as int]));
                    }
                    Some(out)
                } else {
                    proof {
                        let ghost s = self@;
                        assert(!claimable(s.jobs[i as int]));
                        assert forall|j: int| !(
                            #[trigger] first_eligible_at(s, job_type@, now as int, j)
                                && claimable(s.jobs[j])) by {
                            if first_eligible_at(s, job_type@, now as int, j) && claimable(
                                s.jobs[j],
                            ) {
                                if j < i as int {
                                    assert(!eligible(s.jobs[j], job_type@, now as int));
                                } else if j > i as int {
                                    assert(!eligible(s.jobs[i as int], job_type@, now as int));
                                }
                            }
                        }
                    }
                    None
                }
            },
        }
    }

    /// One poll-stream tick: a claim attempt at the wall clock's current
    /// time. The consumption stream calls this once per interval. The tick
    /// reports the time it read alongside the result, and the contract is
    /// exactly a claim attempt at that reported time: whether the tick
    /// claimed or yielded nothing is decided by the table's state then.
    pub fn poll_tick(&mut self, worker_id: &String, job_type: &String) -> (r: (
        i64,
        Option<JobRow>,
    ))
        ensures
            poll_outcome(
                old(self)@,
                final(self)@,
                worker_id@,
                job_type@,
                r.0 as int,
                opt_row_view(r.1),
            ),
    {
        let now = ambient::now_timestamp();
        let claimed = self.claim_next(worker_id, job_type, now);
        (now, claimed)
    }
}

} // verus!
