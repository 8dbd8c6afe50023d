//! The two kinds of record the queue keeps — job rows and worker rows — with
//! their mathematical images, and the spec-level vocabulary of the lifecycle:
//! which rows are eligible for a claim, what a claim, an acknowledgement, a
//! retry, a reschedule or a sweep reset does to a row.

use vstd::prelude::*;

verus! {

/// The retry ceiling a freshly enqueued job starts with.
pub const DEFAULT_MAX_ATTEMPTS: u32 = 25;

/// Lifecycle state of a job. `Done` and `Killed` are terminal; `Failed` is a
/// recoverable holding state that a sweep may return to `Pending`.
#[derive(Clone, Copy, PartialEq, Eq, Structural, Debug)]
pub enum JobStatus {
    Pending,
    Running,
    Done,
    Failed,
    Killed,
}

/// One row of the job table. Timestamps are whole seconds since the Unix
/// epoch; the payload is an opaque text blob owned by the caller.
#[derive(Debug)]
pub struct JobRow {
    pub id: String,
    pub payload: String,
    pub job_type: String,
    pub status: JobStatus,
    pub attempts: u32,
    pub max_attempts: u32,
    pub run_at: i64,
    pub last_error: Option<String>,
    pub lock_at: Option<i64>,
    pub lock_by: Option<String>,
    pub done_at: Option<i64>,
}

/// Mathematical image of a job row.
#[verifier::ext_equal]
pub ghost struct JobView {
    pub id: Seq<char>,
    pub payload: Seq<char>,
    pub job_type: Seq<char>,
    pub status: JobStatus,
    pub attempts: int,
    pub max_attempts: int,
    pub run_at: int,
    pub last_error: Option<Seq<char>>,
    pub lock_at: Option<int>,
    pub lock_by: Option<Seq<char>>,
    pub done_at: Option<int>,
}

impl View for JobRow {
    type V = JobView;

    open spec fn view(&self) -> JobView {
        JobView {
            id: self.id@,
            payload: self.payload@,
            job_type: self.job_type@,
            status: self.status,
            attempts: self.attempts as int,
            max_attempts: self.max_attempts as int,
            run_at: self.run_at as int,
            last_error: match self.last_error {
                Option::Some(e) => Option::Some(e@),
                Option::None => Option::None,
            },
            lock_at: match self.lock_at {
                Option::Some(t) => Option::Some(t as int),
                Option::None => Option::None,
            },
            lock_by: match self.lock_by {
                Option::Some(w) => Option::Some(w@),
                Option::None => Option::None,
            },
            done_at: match self.done_at {
                Option::Some(t) => Option::Some(t as int),
                Option::None => Option::None,
            },
        }
    }
}

/// One row of the worker table, written by heartbeats and read by the orphan
/// sweep.
#[derive(Debug)]
pub struct WorkerRow {
    pub id: String,
    pub worker_type: String,
    pub storage_name: String,
    pub last_seen: i64,
}

/// Mathematical image of a worker row.
#[verifier::ext_equal]
pub ghost struct WorkerView {
    pub id: Seq<char>,
    pub worker_type: Seq<char>,
    pub storage_name: Seq<char>,
    pub last_seen: int,
}

impl View for WorkerRow {
    type V = WorkerView;

    open spec fn view(&self) -> WorkerView {
        WorkerView {
            id: self.id@,
            worker_type: self.worker_type@,
            storage_name: self.storage_name@,
            last_seen: self.last_seen as int,
        }
    }
}

pub(crate) fn clone_opt_string(o: &Option<String>) -> (r: Option<String>)
    ensures
        r == *o,
{
    match o {
        Some(s) => Some(s.clone()),
        None => None,
    }
}

impl Clone for JobRow {
    fn clone(&self) -> (r: Self)
        ensures
            r == *self,
    {
        JobRow {
            id: self.id.clone(),
            payload: self.payload.clone(),
            job_type: self.job_type.clone(),
            status: self.status,
            attempts: self.attempts,
            max_attempts: self.max_attempts,
            run_at: self.run_at,
            last_error: clone_opt_string(&self.last_error),
            lock_at: self.lock_at,
            lock_by: clone_opt_string(&self.lock_by),
            done_at: self.done_at,
        }
    }
}

impl Clone for WorkerRow {
    fn clone(&self) -> (r: Self)
        ensures
            r == *self,
    {
        WorkerRow {
            id: self.id.clone(),
            worker_type: self.worker_type.clone(),
            storage_name: self.storage_name.clone(),
            last_seen: self.last_seen,
        }
    }
}

/// The row a fresh enqueue writes: `Pending`, no attempts yet, the default
/// retry ceiling, and every lock and completion field empty.
pub open spec fn pending_row(
    id: Seq<char>,
    job_type: Seq<char>,
    payload: Seq<char>,
    run_at: int,
) -> JobView {
    JobView {
        id: id,
        payload: payload,
        job_type: job_type,
        status: JobStatus::Pending,
        attempts: 0,
        max_attempts: DEFAULT_MAX_ATTEMPTS as int,
        run_at: run_at,
        last_error: Option::None,
        lock_at: Option::None,
        lock_by: Option::None,
        done_at: Option::None,
    }
}

/// A row the claim protocol may select as a candidate at time `now`: of the
/// worker's type, due, and either `Pending` or `Failed` with retries left.
/// The grouping is deliberate: the type and due-time conditions apply to both
/// status disjuncts.
pub open spec fn eligible(r: JobView, job_type: Seq<char>, now: int) -> bool {
    &&& (r.status == JobStatus::Pending || (r.status == JobStatus::Failed && r.attempts
        < r.max_attempts))
    &&& r.run_at <= now
    &&& r.job_type == job_type
}

/// A row the atomic claim may take: still `Pending` and owned by nobody.
pub open spec fn claimable(r: JobView) -> bool {
    r.status == JobStatus::Pending && r.lock_by is None
}

/// The image of a row after a worker claims it.
pub open spec fn claimed(r: JobView, worker: Seq<char>) -> JobView {
    JobView { status: JobStatus::Running, lock_by: Option::Some(worker), ..r }
}

/// The ownership guard of `ack`, `kill` and `retry`: the row carries the given
/// id and is still locked by the given worker.
pub open spec fn owner_guarded(r: JobView, id: Seq<char>, worker: Seq<char>) -> bool {
    r.id == id && r.lock_by == Option::Some(worker)
}

/// The image of a row after `ack` (`status` = `Done`) or `kill`
/// (`status` = `Killed`): finished at `now`.
pub open spec fn finished(r: JobView, status: JobStatus, now: int) -> JobView {
    JobView { status: status, done_at: Option::Some(now), ..r }
}

/// The image of a row after `retry`: immediately claimable again, with no
/// backoff and no attempt bookkeeping.
pub open spec fn retried(r: JobView) -> JobView {
    JobView { status: JobStatus::Pending, done_at: Option::None, lock_by: Option::None, ..r }
}

/// The image of a row after `reschedule`: parked as `Failed` until `run_at`.
pub open spec fn rescheduled(r: JobView, run_at: int) -> JobView {
    JobView {
        status: JobStatus::Failed,
        done_at: Option::None,
        lock_by: Option::None,
        lock_at: Option::None,
        run_at: run_at,
        ..r
    }
}

/// The image of a row a sweep returns to the queue: `Pending` with every lock
/// and completion field cleared.
pub open spec fn requeued(r: JobView) -> JobView {
    JobView {
        status: JobStatus::Pending,
        done_at: Option::None,
        lock_by: Option::None,
        lock_at: Option::None,
        ..r
    }
}

/// The image of a row the orphan sweep reclaims: requeued, with the
/// abandonment marker as its last error.
pub open spec fn abandoned(r: JobView) -> JobView {
    JobView { last_error: Option::Some(abandoned_marker()), ..requeued(r) }
}

/// The diagnostic text the orphan sweep leaves on a reclaimed row.
pub open spec fn abandoned_marker() -> Seq<char> {
    "Job was abandoned"@
}

/// A `Failed` row the scheduled sweep may return to the queue: of the given
/// type and with retries left.
pub open spec fn retryable(r: JobView, job_type: Seq<char>) -> bool {
    r.status == JobStatus::Failed && r.attempts < r.max_attempts && r.job_type == job_type
}

/// Order of sweep recovery: rows with no lock time come first, then older
/// lock times before newer ones.
pub open spec fn lock_key_le(a: Option<int>, b: Option<int>) -> bool {
    match a {
        Option::None => true,
        Option::Some(x) => match b {
            Option::None => false,
            Option::Some(y) => x <= y,
        },
    }
}

/// Spec image of an optional text field.
pub open spec fn opt_text(o: Option<String>) -> Option<Seq<char>> {
    match o {
        Option::Some(s) => Option::Some(s@),
        Option::None => Option::None,
    }
}

/// Spec image of an optional timestamp field.
pub open spec fn opt_time(o: Option<i64>) -> Option<int> {
    match o {
        Option::Some(t) => Option::Some(t as int),
        Option::None => Option::None,
    }
}

} // verus!
