//! The job store: the two tables as verified in-memory state, with the
//! CRUD-style primitives every other component builds on. Each mutating
//! primitive is a single atomic step against the store, specified row by row
//! over the store's mathematical view.

use crate::ambient;
use crate::job::{
    clone_opt_string, opt_text, opt_time, pending_row, JobRow, JobStatus, JobView, WorkerRow,
    WorkerView, DEFAULT_MAX_ATTEMPTS,
};
use vstd::prelude::*;

verus! {

/// Failures a store primitive can report. Ownership races are not errors:
/// the guarded operations report them as "no row updated" instead.
#[derive(Clone, Copy, PartialEq, Eq, Structural, Debug)]
pub enum StoreError {
    /// An insert found the given id already present.
    DuplicateId,
    /// A computed timestamp would not fit the store's second counter.
    TimestampOverflow,
}

/// Mathematical image of the whole store: both tables, in insertion order.
/// Row order is the creation order the claim protocol reads.
#[verifier::ext_equal]
pub ghost struct StoreView {
    pub jobs: Seq<JobView>,
    pub workers: Seq<WorkerView>,
}

/// The job and worker tables. Jobs are kept in insertion order, which is the
/// creation order that candidate selection walks; rows are updated in place
/// and never removed.
pub struct JobStore {
    pub jobs: Vec<JobRow>,
    pub workers: Vec<WorkerRow>,
}

/// The mathematical image of a sequence of job rows.
pub open spec fn rows_view(rows: Seq<JobRow>) -> Seq<JobView> {
    rows.map_values(|r: JobRow| r@)
}

/// The mathematical image of a sequence of worker rows.
pub open spec fn workers_view(rows: Seq<WorkerRow>) -> Seq<WorkerView> {
    rows.map_values(|w: WorkerRow| w@)
}

impl View for JobStore {
    type V = StoreView;

    open spec fn view(&self) -> StoreView {
        StoreView { jobs: rows_view(self.jobs@), workers: workers_view(self.workers@) }
    }
}

/// Some row of the table carries the given id.
pub open spec fn has_job_id(jobs: Seq<JobView>, id: Seq<char>) -> bool {
    exists|i: int| 0 <= i < jobs.len() && jobs[i].id == id
}

/// `i` is the first row carrying the given id, the row a point lookup reads.
pub open spec fn first_match_at(jobs: Seq<JobView>, id: Seq<char>, i: int) -> bool {
    &&& 0 <= i < jobs.len()
    &&& jobs[i].id == id
    &&& forall|j: int| 0 <= j < i ==> jobs[j].id != id
}

/// How many rows of the given type sit in `Pending`.
pub open spec fn pending_count(jobs: Seq<JobView>, job_type: Seq<char>) -> int
    decreases jobs.len(),
{
    if jobs.len() == 0 {
        0
    } else {
        pending_count(jobs.drop_last(), job_type) + if jobs.last().status == JobStatus::Pending
            && jobs.last().job_type == job_type {
            1int
        } else {
            0int
        }
    }
}

/// The image of a row after `update_fields`: the identity, payload, type,
/// ceiling and due time stay; everything an executor reports is overwritten.
pub open spec fn overwritten(
    r: JobView,
    status: JobStatus,
    attempts: int,
    done_at: Option<int>,
    lock_by: Option<Seq<char>>,
    lock_at: Option<int>,
    last_error: Option<Seq<char>>,
) -> JobView {
    JobView {
        status: status,
        attempts: attempts,
        done_at: done_at,
        lock_by: lock_by,
        lock_at: lock_at,
        last_error: last_error,
        ..r
    }
}

/// The rows of the given status, in creation order, as `list` pages them.
pub open spec fn with_status(jobs: Seq<JobView>, status: JobStatus) -> Seq<JobView>
    decreases jobs.len(),
{
    if jobs.len() == 0 {
        Seq::empty()
    } else if jobs.last().status == status {
        with_status(jobs.drop_last(), status).push(jobs.last())
    } else {
        with_status(jobs.drop_last(), status)
    }
}

/// The page of ten that `list` returns from a filtered sequence.
pub open spec fn page_of(s: Seq<JobView>, page: int) -> Seq<JobView> {
    let start = if 10 * page < s.len() as int {
        10 * page
    } else {
        s.len() as int
    };
    let end = if start + 10 < s.len() as int {
        start + 10
    } else {
        s.len() as int
    };
    s.subrange(start, end)
}

impl JobStore {
    /// A store with empty tables.
    pub fn new() -> (r: JobStore)
        ensures
            r@.jobs == Seq::<JobView>::empty(),
            r@.workers == Seq::<WorkerView>::empty(),
    {
        let r = JobStore { jobs: Vec::new(), workers: Vec::new() };
        proof {
            assert(r@.jobs =~= Seq::<JobView>::empty());
            assert(r@.workers =~= Seq::<WorkerView>::empty());
        }
        r
    }

    /// Whether some row already carries the given id.
    pub fn contains_job_id(&self, id: &String) -> (r: bool)
        ensures
            r == has_job_id(self@.jobs, id@),
    {
        let n = self.jobs.len();
        let mut i: usize = 0;
        while i < n
            invariant
                n == self.jobs.len(),
                0 <= i <= n,
                forall|j: int| 0 <= j < i ==> self@.jobs[j].id != id@,
            decreases n - i,
        {
            if self.jobs[i].id == *id {
                assert(self@.jobs[i as int].id == id@);
                return true;
            }
            i += 1;
        }
        false
    }

    /// Writes a fresh `Pending` row with the given id, payload, type and due
    /// time, or reports the constraint violation if the id is taken.
    pub fn insert(&mut self, id: String, job_type: String, payload: String, run_at: i64) -> (r:
        Result<(), StoreError>)
        ensures
            final(self)@.workers == old(self)@.workers,
            has_job_id(old(self)@.jobs, id@) ==> r == Err::<(), StoreError>(
                StoreError::DuplicateId,
            ) && final(self)@ == old(self)@,
            !has_job_id(old(self)@.jobs, id@) ==> r == Ok::<(), StoreError>(())
                && final(self)@.jobs == old(self)@.jobs.push(
                pending_row(id@, job_type@, payload@, run_at as int),
            ),
    {
        if self.contains_job_id(&id) {
            return Err(StoreError::DuplicateId);
        }
        let ghost expected = self@.jobs.push(pending_row(id@, job_type@, payload@, run_at as int));
        let row = JobRow {
            id: id,
            payload: payload,
            job_type: job_type,
            status: JobStatus::Pending,
            attempts: 0,
            max_attempts: DEFAULT_MAX_ATTEMPTS,
            run_at: run_at,
            last_error: None,
            lock_at: None,
            lock_by: None,
            done_at: None,
        };
        self.jobs.push(row);
        proof {
            assert(self@.jobs =~= expected);
        }
        Ok(())
    }

    /// Enqueues a job for immediate execution: a fresh random id, the current
    /// time as due time, and an initial `Pending` row. The id is returned so
    /// the caller can track the job. Failure is owed only to a genuine id
    /// collision, which an empty table cannot produce: on an empty store the
    /// call always succeeds.
    pub fn enqueue(&mut self, job_type: String, payload: String) -> (r: Result<String, StoreError>)
        ensures
            final(self)@.workers == old(self)@.workers,
            r matches Ok(id) ==> !has_job_id(old(self)@.jobs, id@) && exists|now: int|
                final(self)@.jobs == old(self)@.jobs.push(
                    pending_row(id@, job_type@, payload@, now),
                ),
            r is Err ==> r == Err::<String, StoreError>(StoreError::DuplicateId) && final(self)@
                == old(self)@ && old(self)@.jobs.len() > 0,
    {
        let id = ambient::fresh_job_id();
        let ghost drawn = id@;
        let now = ambient::now_timestamp();
        let handle = id.clone();
        match self.insert(id, job_type, payload, now) {
            Ok(()) => Ok(handle),
            Err(e) => {
                proof {
                    assert(has_job_id(old(self)@.jobs, drawn));
                    let i = choose|i: int|
                        0 <= i < old(self)@.jobs.len() && old(self)@.jobs[i].id == drawn;
                }
                Err(e)
            },
        }
    }

    /// Enqueues a job that must not run before `when`. As with `enqueue`,
    /// failure is owed only to an id collision against a non-empty table.
    pub fn enqueue_at(&mut self, job_type: String, payload: String, when: i64) -> (r: Result<
        String,
        StoreError,
    >)
        ensures
            final(self)@.workers == old(self)@.workers,
            r matches Ok(id) ==> !has_job_id(old(self)@.jobs, id@) && final(self)@.jobs == old(
                self)@.jobs.push(pending_row(id@, job_type@, payload@, when as int)),
            r is Err ==> r == Err::<String, StoreError>(StoreError::DuplicateId) && final(self)@
                == old(self)@ && old(self)@.jobs.len() > 0,
    {
        let id = ambient::fresh_job_id();
        let ghost drawn = id@;
        let handle = id.clone();
        match self.insert(id, job_type, payload, when) {
            Ok(()) => Ok(handle),
            Err(e) => {
                proof {
                    assert(has_job_id(old(self)@.jobs, drawn));
                    let i = choose|i: int|
                        0 <= i < old(self)@.jobs.len() && old(self)@.jobs[i].id == drawn;
                }
                Err(e)
            },
        }
    }

    /// Point lookup: the first row carrying the given id, if any.
    pub fn fetch_by_id(&self, job_id: &String) -> (r: Option<JobRow>)
        ensures
            match r {
                Some(row) => exists|i: int|
                    #[trigger] first_match_at(self@.jobs, job_id@, i) && row@ == self@.jobs[i],
                None => !has_job_id(self@.jobs, job_id@),
            },
    {
        let n = self.jobs.len();
        let mut i: usize = 0;
        while i < n
            invariant
                n == self.jobs.len(),
                0 <= i <= n,
                forall|j: int| 0 <= j < i ==> self@.jobs[j].id != job_id@,
            decreases n - i,
        {
            if self.jobs[i].id == *job_id {
                let row = self.jobs[i].clone();
                proof {
                    assert(first_match_at(self@.jobs, job_id@, i as int));
                }
                return Some(row);
            }
            i += 1;
        }
        None
    }

    /// How many jobs of the given type are waiting in `Pending`.
    pub fn count_pending(&self, job_type: &String) -> (r: usize)
        ensures
            r == pending_count(self@.jobs, job_type@),
    {
        let n = self.jobs.len();
        let mut i: usize = 0;
        let mut c: usize = 0;
        proof {
            assert(self@.jobs.take(0) =~= Seq::<JobView>::empty());
        }
        while i < n
            invariant
                n == self.jobs.len(),
                0 <= i <= n,
                c <= i,
                c == pending_count(self@.jobs.take(i as int), job_type@),
            decreases n - i,
        {
            let hit = matches!(self.jobs[i].status, JobStatus::Pending) && self.jobs[i].job_type == *job_type;
            proof {
                let t = self@.jobs.take(i + 1);
                assert(t.drop_last() =~= self@.jobs.take(i as int));
                assert(t.last() == self@.jobs[i as int]);
            }
            if hit {
                c += 1;
            }
            i += 1;
        }
        proof {
            assert(self@.jobs.take(n as int) =~= self@.jobs);
        }
        c
    }

    /// The pending backlog of the given type, the number `consume` workers
    /// will eventually drain.
    pub fn len(&self, job_type: &String) -> (r: usize)
        ensures
            r == pending_count(self@.jobs, job_type@),
    {
        self.count_pending(job_type)
    }

    /// Unconditional field overwrite by id, the executor's way of persisting
    /// attempt counts and error text alongside a status change. Reports
    /// whether any row carried the id.
    pub fn update_fields(
        &mut self,
        job_id: &String,
        status: JobStatus,
        attempts: u32,
        done_at: Option<i64>,
        lock_by: Option<String>,
        lock_at: Option<i64>,
        last_error: Option<String>,
    ) -> (r: bool)
        ensures
            final(self)@.workers == old(self)@.workers,
            final(self)@.jobs.len() == old(self)@.jobs.len(),
            forall|i: int|
                0 <= i < old(self)@.jobs.len() ==> final(self)@.jobs[i] == (if old(
                    self,
                )@.jobs[i].id == job_id@ {
                    overwritten(
                        old(self)@.jobs[i],
                        status,
                        attempts as int,
                        opt_time(done_at),
                        opt_text(lock_by),
                        opt_time(lock_at),
                        opt_text(last_error),
                    )
                } else {
                    old(self)@.jobs[i]
                }),
            r == has_job_id(old(self)@.jobs, job_id@),
    {
        let n = self.jobs.len();
        let mut i: usize = 0;
        let mut found = false;
        while i < n
            invariant
                n == self.jobs.len(),
                0 <= i <= n,
                self@.workers == old(self)@.workers,
                self@.jobs.len() == old(self)@.jobs.len(),
                forall|j: int|
                    0 <= j < i ==> self@.jobs[j] == (if old(self)@.jobs[j].id == job_id@ {
                        overwritten(
                            old(self)@.jobs[j],
                            status,
                            attempts as int,
                            opt_time(done_at),
                            opt_text(lock_by),
                            opt_time(lock_at),
                            opt_text(last_error),
                        )
                    } else {
                        old(self)@.jobs[j]
                    }),
                forall|j: int| i <= j < n ==> self@.jobs[j] == old(self)@.jobs[j],
                found == exists|j: int| 0 <= j < i && old(self)@.jobs[j].id == job_id@,
            decreases n - i,
        {
            if self.jobs[i].id == *job_id {
                let ghost pre_jobs = self@.jobs;
                let updated = JobRow {
                    id: self.jobs[i].id.clone(),
                    payload: self.jobs[i].payload.clone(),
                    job_type: self.jobs[i].job_type.clone(),
                    status: status,
                    attempts: attempts,
                    max_attempts: self.jobs[i].max_attempts,
                    run_at: self.jobs[i].run_at,
                    last_error: clone_opt_string(&last_error),
                    lock_at: lock_at,
                    lock_by: clone_opt_string(&lock_by),
                    done_at: done_at,
                };
                proof {
                    assert(updated@ =~= overwritten(
                        old(self)@.jobs[i as int],
                        status,
                        attempts as int,
                        opt_time(done_at),
                        opt_text(lock_by),
                        opt_time(lock_at),
                        opt_text(last_error),
                    ));
                }
                self.jobs[i] = updated;
                found = true;
                proof {
                    assert(self@.jobs =~= pre_jobs.update(i as int, updated@));
                    assert(old(self)@.jobs[i as int].id == job_id@);
                }
            }
            i += 1;
        }
        found
    }

    /// A bounded page of jobs in the given status, in creation order, for
    /// diagnostic listings: the `page`-th window of ten.
    pub fn list(&self, status: JobStatus, page: u32) -> (r: Vec<JobRow>)
        ensures
            rows_view(r@) == page_of(with_status(self@.jobs, status), page as int),
    {
        let n = self.jobs.len();
        let mut matched: Vec<JobRow> = Vec::new();
        let mut i: usize = 0;
        proof {
            assert(self@.jobs.take(0) =~= Seq::<JobView>::empty());
            assert(rows_view(matched@) =~= with_status(
                self@.jobs.take(0),
                status,
            ));
        }
        while i < n
            invariant
                n == self.jobs.len(),
                0 <= i <= n,
                rows_view(matched@) == with_status(
                    self@.jobs.take(i as int),
                    status,
                ),
            decreases n - i,
        {
            let ghost pre = matched@;
            let hit = self.jobs[i].status == status;
            if hit {
                matched.push(self.jobs[i].clone());
            }
            proof {
                let t = self@.jobs.take(i + 1);
                assert(t.drop_last() =~= self@.jobs.take(i as int));
                assert(t.last() == self@.jobs[i as int]);
                if hit {
                    assert(rows_view(matched@) =~= rows_view(pre).push(self@.jobs[i as int]));
                } else {
                    assert(matched@ == pre);
                }
            }
            i += 1;
        }
        proof {
            assert(self@.jobs.take(n as int) =~= self@.jobs);
        }
        let m = matched.len();
        let start64: u64 = (page as u64) * 10;
        let start: usize = if start64 >= m as u64 {
            m
        } else {
            start64 as usize
        };
        let end: usize = if m - start > 10 {
            start + 10
        } else {
            m
        };
        let mut r: Vec<JobRow> = Vec::new();
        let mut j: usize = start;
        proof {
            assert(rows_view(r@) =~= with_status(
                self@.jobs,
                status,
            ).subrange(start as int, start as int));
        }
        while j < end
            invariant
                start <= j <= end <= m,
                m == matched.len(),
                rows_view(matched@) == with_status(self@.jobs, status),
                rows_view(r@) == with_status(self@.jobs, status).subrange(
                    start as int,
                    j as int,
                ),
            decreases end - j,
        {
            let ghost pre = r@;
            let ghost ws = with_status(self@.jobs, status);
            r.push(matched[j].clone());
            proof {
                assert(rows_view(matched@)[j as int] == matched@[j as int]@);
                assert(matched@[j as int]@ == ws[j as int]);
                assert(rows_view(r@) =~= rows_view(pre).push(ws[j as int]));
                assert(rows_view(r@) =~= ws.subrange(start as int, j as int + 1));
            }
            j += 1;
        }
        proof {
            assert(with_status(self@.jobs, status).subrange(start as int, end as int) =~= page_of(
                with_status(self@.jobs, status),
                page as int,
            ));
        }
        r
    }
}

} // verus!
