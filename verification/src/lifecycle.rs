//! Lifecycle operations: what an executor calls once it has processed a
//! claimed job. `ack`, `kill` and `retry` are ownership-scoped — a row that
//! was reclaimed or finished by someone else is left untouched and reported
//! as "no longer mine" — while `reschedule` parks a job by id for a later
//! attempt.

use crate::job::{
    clone_opt_string, finished, opt_text, owner_guarded, rescheduled, retried, JobRow, JobStatus,
};
use crate::store::{JobStore, StoreError, StoreView};
use vstd::prelude::*;

verus! {

/// Whether some row carries the given id and is still locked by the worker —
/// the condition under which the guarded operations touch the table.
pub open spec fn owned_here(s: StoreView, id: Seq<char>, worker: Seq<char>) -> bool {
    exists|i: int| 0 <= i < s.jobs.len() && owner_guarded(s.jobs[i], id, worker)
}

/// What `ack` and `kill` do to the table: every row guarded by the id and the
/// worker is finished with the given terminal status at `now`; every other
/// row keeps its value.
pub open spec fn finalize_transition(
    pre: StoreView,
    post: StoreView,
    worker: Seq<char>,
    id: Seq<char>,
    status: JobStatus,
    now: int,
) -> bool {
    &&& post.workers == pre.workers
    &&& post.jobs.len() == pre.jobs.len()
    &&& forall|i: int|
        0 <= i < pre.jobs.len() ==> post.jobs[i] == (if owner_guarded(pre.jobs[i], id, worker) {
            finished(pre.jobs[i], status, now)
        } else {
            pre.jobs[i]
        })
}

/// What `retry` does to the table: every guarded row goes straight back to
/// `Pending`, unlocked, with no backoff and no attempt bookkeeping.
pub open spec fn retry_transition(
    pre: StoreView,
    post: StoreView,
    worker: Seq<char>,
    id: Seq<char>,
) -> bool {
    &&& post.workers == pre.workers
    &&& post.jobs.len() == pre.jobs.len()
    &&& forall|i: int|
        0 <= i < pre.jobs.len() ==> post.jobs[i] == (if owner_guarded(pre.jobs[i], id, worker) {
            retried(pre.jobs[i])
        } else {
            pre.jobs[i]
        })
}

/// What `reschedule` does to the table: every row with the id is parked as
/// `Failed`, unlocked, due again at `run_at`; every other row keeps its
/// value.
pub open spec fn reschedule_transition(
    pre: StoreView,
    post: StoreView,
    id: Seq<char>,
    run_at: int,
) -> bool {
    &&& post.workers == pre.workers
    &&& post.jobs.len() == pre.jobs.len()
    &&& forall|i: int|
        0 <= i < pre.jobs.len() ==> post.jobs[i] == (if pre.jobs[i].id == id {
            rescheduled(pre.jobs[i], run_at)
        } else {
            pre.jobs[i]
        })
}

/// Whether the row's lock names exactly this worker.
fn locked_by(o: &Option<String>, worker: &String) -> (r: bool)
    ensures
        r == (opt_text(*o) == Option::Some(worker@)),
{
    match o {
        Some(s) => *s == *worker,
        None => false,
    }
}

impl JobStore {
    /// Marks the job done at `now`, but only while the caller still owns it.
    /// Returns whether a row was updated; `false` means the job was reclaimed
    /// or finalized elsewhere and the call was a no-op.
    pub fn ack(&mut self, worker_id: &String, job_id: &String, now: i64) -> (r: bool)
        ensures
            finalize_transition(
                old(self)@,
                final(self)@,
                worker_id@,
                job_id@,
                JobStatus::Done,
                now as int,
            ),
            r == owned_here(old(self)@, job_id@, worker_id@),
    {
        self.finalize(worker_id, job_id, JobStatus::Done, now)
    }

    /// Marks the job killed at `now`, under the same ownership guard as
    /// `ack`. A killed job is terminal: no sweep ever revives it.
    pub fn kill(&mut self, worker_id: &String, job_id: &String, now: i64) -> (r: bool)
        ensures
            finalize_transition(
                old(self)@,
                final(self)@,
                worker_id@,
                job_id@,
                JobStatus::Killed,
                now as int,
            ),
            r == owned_here(old(self)@, job_id@, worker_id@),
    {
        self.finalize(worker_id, job_id, JobStatus::Killed, now)
    }

    /// The shared body of `ack` and `kill`: finish every guarded row with the
    /// given terminal status.
    fn finalize(&mut self, worker_id: &String, job_id: &String, status: JobStatus, now: i64) -> (r:
        bool)
        ensures
            finalize_transition(
                old(self)@,
                final(self)@,
                worker_id@,
                job_id@,
                status,
                now as int,
            ),
            r == owned_here(old(self)@, job_id@, worker_id@),
    {
        let n = self.jobs.len();
        let mut i: usize = 0;
        let mut touched = false;
        let ghost mut hit_at: int = 0;
        while i < n
            invariant
                n == self.jobs.len(),
                0 <= i <= n,
                self@.workers == old(self)@.workers,
                self@.jobs.len() == old(self)@.jobs.len(),
                forall|j: int|
                    0 <= j < i ==> self@.jobs[j] == (if owner_guarded(
                        old(self)@.jobs[j],
                        job_id@,
                        worker_id@,
                    ) {
                        finished(old(self)@.jobs[j], status, now as int)
                    } else {
                        old(self)@.jobs[j]
                    }),
                forall|j: int| i <= j < n ==> self@.jobs[j] == old(self)@.jobs[j],
                touched ==> 0 <= hit_at < i && owner_guarded(
                    old(self)@.jobs[hit_at],
                    job_id@,
                    worker_id@,
                ),
                !touched ==> forall|j: int|
                    0 <= j < i ==> !owner_guarded(old(self)@.jobs[j], job_id@, worker_id@),
            decreases n - i,
        {
            if self.jobs[i].id == *job_id && locked_by(&self.jobs[i].lock_by, worker_id) {
                let ghost pre_jobs = self@.jobs;
                let updated = JobRow {
                    id: self.jobs[i].id.clone(),
                    payload: self.jobs[i].payload.clone(),
                    job_type: self.jobs[i].job_type.clone(),
                    status: status,
                    attempts: self.jobs[i].attempts,
                    max_attempts: self.jobs[i].max_attempts,
                    run_at: self.jobs[i].run_at,
                    last_error: clone_opt_string(&self.jobs[i].last_error),
                    lock_at: self.jobs[i].lock_at,
                    lock_by: clone_opt_string(&self.jobs[i].lock_by),
                    done_at: Some(now),
                };
                proof {
                    assert(updated@ =~= finished(old(self)@.jobs[i as int], status, now as int));
                }
                self.jobs[i] = updated;
                touched = true;
                proof {
                    hit_at = i as int;
                    assert(self@.jobs =~= pre_jobs.update(i as int, updated@));
                    assert(owner_guarded(old(self)@.jobs[i as int], job_id@, worker_id@));
                }
            }
            i += 1;
        }
        proof {
            if touched {
                assert(owned_here(old(self)@, job_id@, worker_id@));
            } else if owned_here(old(self)@, job_id@, worker_id@) {
                let j = choose|i: int|
                    0 <= i < old(self)@.jobs.len() && owner_guarded(
                        old(self)@.jobs[i],
                        job_id@,
                        worker_id@,
                    );
                assert(!owner_guarded(old(self)@.jobs[j], job_id@, worker_id@));
            }
        }
        touched
    }

    /// Puts the job straight back into the queue so any worker may take it
    /// again, under the same ownership guard. No backoff is applied and the
    /// attempt counter is left alone: attempt bookkeeping is the executor's
    /// business, through `update_fields`.
    pub fn retry(&mut self, worker_id: &String, job_id: &String) -> (r: bool)
        ensures
            retry_transition(old(self)@, final(self)@, worker_id@, job_id@),
            r == owned_here(old(self)@, job_id@, worker_id@),
    {
        let n = self.jobs.len();
        let mut i: usize = 0;
        let mut touched = false;
        let ghost mut hit_at: int = 0;
        while i < n
            invariant
                n == self.jobs.len(),
                0 <= i <= n,
                self@.workers == old(self)@.workers,
                self@.jobs.len() == old(self)@.jobs.len(),
                forall|j: int|
                    0 <= j < i ==> self@.jobs[j] == (if owner_guarded(
                        old(self)@.jobs[j],
                        job_id@,
                        worker_id@,
                    ) {
                        retried(old(self)@.jobs[j])
                    } else {
                        old(self)@.jobs[j]
                    }),
                forall|j: int| i <= j < n ==> self@.jobs[j] == old(self)@.jobs[j],
                touched ==> 0 <= hit_at < i && owner_guarded(
                    old(self)@.jobs[hit_at],
                    job_id@,
                    worker_id@,
                ),
                !touched ==> forall|j: int|
                    0 <= j < i ==> !owner_guarded(old(self)@.jobs[j], job_id@, worker_id@),
            decreases n - i,
        {
            if self.jobs[i].id == *job_id && locked_by(&self.jobs[i].lock_by, worker_id) {
                let ghost pre_jobs = self@.jobs;
                let updated = JobRow {
                    id: self.jobs[i].id.clone(),
                    payload: self.jobs[i].payload.clone(),
                    job_type: self.jobs[i].job_type.clone(),
                    status: JobStatus::Pending,
                    attempts: self.jobs[i].attempts,
                    max_attempts: self.jobs[i].max_attempts,
                    run_at: self.jobs[i].run_at,
                    last_error: clone_opt_string(&self.jobs[i].last_error),
                    lock_at: self.jobs[i].lock_at,
                    lock_by: None,
                    done_at: None,
                };
                proof {
                    assert(updated@ =~= retried(old(self)@.jobs[i as int]));
                }
                self.jobs[i] = updated;
                touched = true;
                proof {
                    hit_at = i as int;
                    assert(self@.jobs =~= pre_jobs.update(i as int, updated@));
                    assert(owner_guarded(old(self)@.jobs[i as int], job_id@, worker_id@));
                }
            }
            i += 1;
        }
        proof {
            if touched {
                assert(owned_here(old(self)@, job_id@, worker_id@));
            } else if owned_here(old(self)@, job_id@, worker_id@) {
                let j = choose|i: int|
                    0 <= i < old(self)@.jobs.len() && owner_guarded(
                        old(self)@.jobs[i],
                        job_id@,
                        worker_id@,
                    );
                assert(!owner_guarded(old(self)@.jobs[j], job_id@, worker_id@));
            }
        }
        touched
    }

    /// The backoff mechanism: parks the job as `Failed`, unlocked, due again
    /// `wait` seconds after `now`. The job becomes claimable only once that
    /// time elapses and a sweep or retry-aware claim cycle reaches it. Fails,
    /// leaving the table untouched, exactly when `now + wait` does not fit
    /// the store's second counter; reports on success whether any row carried
    /// the id.
    pub fn reschedule(&mut self, job_id: &String, wait: u64, now: i64) -> (r: Result<
        bool,
        StoreError,
    >)
        ensures
            !(wait as int <= i64::MAX as int && now as int + wait as int <= i64::MAX as int) ==> r
                == Err::<bool, StoreError>(StoreError::TimestampOverflow) && final(self)@ == old(
                self,
            )@,
            wait as int <= i64::MAX as int && now as int + wait as int <= i64::MAX as int
                ==> reschedule_transition(
                old(self)@,
                final(self)@,
                job_id@,
                now as int + wait as int,
            ) && r == Ok::<bool, StoreError>(crate::store::has_job_id(old(self)@.jobs, job_id@)),
    {
        if wait > i64::MAX as u64 {
            return Err(StoreError::TimestampOverflow);
        }
        let wait_s = wait as i64;
        if now >= 0 && wait_s > i64::MAX - now {
            return Err(StoreError::TimestampOverflow);
        }
        let target = now + wait_s;
        let n = self.jobs.len();
        let mut i: usize = 0;
        let mut touched = false;
        let ghost mut hit_at: int = 0;
        while i < n
            invariant
                n == self.jobs.len(),
                0 <= i <= n,
                target == now as int + wait as int,
                self@.workers == old(self)@.workers,
                self@.jobs.len() == old(self)@.jobs.len(),
                forall|j: int|
                    0 <= j < i ==> self@.jobs[j] == (if old(self)@.jobs[j].id == job_id@ {
                        rescheduled(old(self)@.jobs[j], target as int)
                    } else {
                        old(self)@.jobs[j]
                    }),
                forall|j: int| i <= j < n ==> self@.jobs[j] == old(self)@.jobs[j],
                touched ==> 0 <= hit_at < i && old(self)@.jobs[hit_at].id == job_id@,
                !touched ==> forall|j: int| 0 <= j < i ==> old(self)@.jobs[j].id != job_id@,
            decreases n - i,
        {
            if self.jobs[i].id == *job_id {
                let ghost pre_jobs = self@.jobs;
                let updated = JobRow {
                    id: self.jobs[i].id.clone(),
                    payload: self.jobs[i].payload.clone(),
                    job_type: self.jobs[i].job_type.clone(),
                    status: JobStatus::Failed,
                    attempts: self.jobs[i].attempts,
                    max_attempts: self.jobs[i].max_attempts,
                    run_at: target,
                    last_error: clone_opt_string(&self.jobs[i].last_error),
                    lock_at: None,
                    lock_by: None,
                    done_at: None,
                };
                proof {
                    assert(updated@ =~= rescheduled(old(self)@.jobs[i as int], target as int));
                }
                self.jobs[i] = updated;
                touched = true;
                proof {
                    hit_at = i as int;
                    assert(self@.jobs =~= pre_jobs.update(i as int, updated@));
                    assert(old(self)@.jobs[i as int].id == job_id@);
                }
            }
            i += 1;
        }
        proof {
            if touched {
                assert(crate::store::has_job_id(old(self)@.jobs, job_id@));
            } else if crate::store::has_job_id(old(self)@.jobs, job_id@) {
                let j = choose|i: int|
                    0 <= i < old(self)@.jobs.len() && old(self)@.jobs[i].id == job_id@;
                assert(old(self)@.jobs[j].id != job_id@);
            }
        }
        Ok(touched)
    }
}

} // verus!
