//! The worker registry and the recovery sweeps. Heartbeats upsert a worker
//! row keyed on id; a worker that stops calling is presumed dead, and the
//! orphan sweep returns its `Running` jobs to the queue. The scheduled sweep
//! returns `Failed` jobs with retries left. Both sweeps recover the oldest
//! locks first and are bounded by a count to cap the recovery burst.

use crate::job::{
    abandoned, clone_opt_string, lock_key_le, opt_text, requeued, retryable, JobRow, JobStatus,
    WorkerRow, WorkerView,
};
use crate::store::{JobStore, StoreView};
use vstd::prelude::*;
use vstd::string::StringExecFns;

verus! {

/// The row one heartbeat writes.
pub open spec fn worker_record(
    id: Seq<char>,
    worker_type: Seq<char>,
    storage_name: Seq<char>,
    last_seen: int,
) -> WorkerView {
    WorkerView {
        id: id,
        worker_type: worker_type,
        storage_name: storage_name,
        last_seen: last_seen,
    }
}

/// `k` is the first worker row carrying the given id, the row an upsert
/// overwrites.
pub open spec fn first_worker_at(workers: Seq<WorkerView>, id: Seq<char>, k: int) -> bool {
    &&& 0 <= k < workers.len()
    &&& workers[k].id == id
    &&& forall|j: int| 0 <= j < k ==> workers[j].id != id
}

/// What one heartbeat does: the first row with the worker's id is overwritten
/// with the fresh record, or the record is appended if the worker is new.
/// Jobs are never touched.
pub open spec fn heartbeat_transition(
    pre: StoreView,
    post: StoreView,
    id: Seq<char>,
    worker_type: Seq<char>,
    storage_name: Seq<char>,
    now: int,
) -> bool {
    &&& post.jobs == pre.jobs
    &&& (exists|k: int| #[trigger] first_worker_at(pre.workers, id, k)) ==> exists|k: int|
        #[trigger] first_worker_at(pre.workers, id, k) && post.workers == pre.workers.update(
            k,
            worker_record(id, worker_type, storage_name, now),
        )
    &&& !(exists|k: int| #[trigger] first_worker_at(pre.workers, id, k)) ==> post.workers
        == pre.workers.push(worker_record(id, worker_type, storage_name, now))
}

/// Row index `j` sits in the sweep's result.
pub open spec fn in_reset(reset: Seq<usize>, j: int) -> bool {
    exists|k: int| 0 <= k < reset.len() && reset[k] as int == j
}

/// What the scheduled sweep does: `reset` names distinct rows, every one of
/// them `Failed`-retryable of the given type; each named row is requeued and
/// every other row keeps its value; at most `count` rows are named, and fewer
/// only when every retryable row was named; and the named rows carry locks no
/// younger than any retryable row left behind.
pub open spec fn requeue_sweep(
    pre: StoreView,
    post: StoreView,
    job_type: Seq<char>,
    count: int,
    reset: Seq<usize>,
) -> bool {
    &&& post.workers == pre.workers
    &&& post.jobs.len() == pre.jobs.len()
    &&& reset.no_duplicates()
    &&& forall|k: int|
        0 <= k < reset.len() ==> reset[k] < pre.jobs.len() && retryable(
            pre.jobs[#[trigger] reset[k] as int],
            job_type,
        )
    &&& forall|j: int|
        0 <= j < pre.jobs.len() && !in_reset(reset, j) ==> post.jobs[j] == pre.jobs[j]
    &&& forall|k: int|
        0 <= k < reset.len() ==> post.jobs[#[trigger] reset[k] as int] == requeued(
            pre.jobs[reset[k] as int],
        )
    &&& reset.len() <= count
    &&& (reset.len() < count ==> forall|j: int|
        0 <= j < pre.jobs.len() && retryable(pre.jobs[j], job_type) ==> in_reset(reset, j))
    &&& forall|k: int, j: int|
        0 <= k < reset.len() && 0 <= j < pre.jobs.len() && retryable(pre.jobs[j], job_type)
            && !in_reset(reset, j) ==> lock_key_le(
            pre.jobs[#[trigger] reset[k] as int].lock_at,
            (#[trigger] pre.jobs[j]).lock_at,
        )
}

/// The job's lock names a worker whose last heartbeat is strictly older than
/// the cutoff.
pub open spec fn stale_owner(s: StoreView, lock_by: Option<Seq<char>>, cutoff: int) -> bool {
    match lock_by {
        Option::Some(w) => exists|k: int|
            0 <= k < s.workers.len() && s.workers[k].id == w && s.workers[k].last_seen < cutoff,
        Option::None => false,
    }
}

/// Row `j` is an orphan at the cutoff: a `Running` job of the given type
/// whose owning worker has gone silent.
pub open spec fn orphaned(s: StoreView, j: int, job_type: Seq<char>, cutoff: int) -> bool {
    &&& 0 <= j < s.jobs.len()
    &&& s.jobs[j].status == JobStatus::Running
    &&& s.jobs[j].job_type == job_type
    &&& stale_owner(s, s.jobs[j].lock_by, cutoff)
}

/// What the orphan sweep does: the named rows are exactly orphans, each reset
/// to `Pending` with the abandonment marker; everything else as in
/// `requeue_sweep`, judged against the cutoff.
pub open spec fn reclaim_sweep(
    pre: StoreView,
    post: StoreView,
    job_type: Seq<char>,
    count: int,
    cutoff: int,
    reset: Seq<usize>,
) -> bool {
    &&& post.workers == pre.workers
    &&& post.jobs.len() == pre.jobs.len()
    &&& reset.no_duplicates()
    &&& forall|k: int|
        0 <= k < reset.len() ==> reset[k] < pre.jobs.len() && orphaned(
            pre,
            #[trigger] reset[k] as int,
            job_type,
            cutoff,
        )
    &&& forall|j: int|
        0 <= j < pre.jobs.len() && !in_reset(reset, j) ==> post.jobs[j] == pre.jobs[j]
    &&& forall|k: int|
        0 <= k < reset.len() ==> post.jobs[#[trigger] reset[k] as int] == abandoned(
            pre.jobs[reset[k] as int],
        )
    &&& reset.len() <= count
    &&& (reset.len() < count ==> forall|j: int|
        0 <= j < pre.jobs.len() && orphaned(pre, j, job_type, cutoff) ==> in_reset(reset, j))
    &&& forall|k: int, j: int|
        0 <= k < reset.len() && 0 <= j < pre.jobs.len() && orphaned(pre, j, job_type, cutoff)
            && !in_reset(reset, j) ==> lock_key_le(
            pre.jobs[#[trigger] reset[k] as int].lock_at,
            (#[trigger] pre.jobs[j]).lock_at,
        )
}

/// Which worker rows count as stale depends only on the worker table, so two
/// store states with the same workers judge every lock alike.
proof fn lemma_stale_same(s1: StoreView, s2: StoreView, lock_by: Option<Seq<char>>, cutoff: int)
    requires
        s1.workers == s2.workers,
    ensures
        stale_owner(s1, lock_by, cutoff) == stale_owner(s2, lock_by, cutoff),
{
    match lock_by {
        Option::Some(w) => {
            if stale_owner(s1, lock_by, cutoff) {
                let k = choose|k: int|
                    0 <= k < s1.workers.len() && s1.workers[k].id == w && s1.workers[k].last_seen
                        < cutoff;
                assert(0 <= k < s2.workers.len() && s2.workers[k].id == w
                    && s2.workers[k].last_seen < cutoff);
            }
            if stale_owner(s2, lock_by, cutoff) {
                let k = choose|k: int|
                    0 <= k < s2.workers.len() && s2.workers[k].id == w && s2.workers[k].last_seen
                        < cutoff;
                assert(0 <= k < s1.workers.len() && s1.workers[k].id == w
                    && s1.workers[k].last_seen < cutoff);
            }
        },
        Option::None => {},
    }
}

/// Orphan-hood of a row depends only on the row and the worker table.
proof fn lemma_orphan_same(s1: StoreView, s2: StoreView, j: int, job_type: Seq<char>, cutoff: int)
    requires
        s1.workers == s2.workers,
        s1.jobs.len() == s2.jobs.len(),
        0 <= j < s1.jobs.len(),
        s1.jobs[j] == s2.jobs[j],
    ensures
        orphaned(s1, j, job_type, cutoff) == orphaned(s2, j, job_type, cutoff),
{
    lemma_stale_same(s1, s2, s1.jobs[j].lock_by, cutoff);
}

/// The executable image of `lock_key_le`.
fn key_le(a: Option<i64>, b: Option<i64>) -> (r: bool)
    ensures
        r == lock_key_le(crate::job::opt_time(a), crate::job::opt_time(b)),
{
    match a {
        None => true,
        Some(x) => match b {
            None => false,
            Some(y) => x <= y,
        },
    }
}

/// Whether this row is `Failed`-retryable for the given type.
fn row_retryable(row: &JobRow, job_type: &String) -> (r: bool)
    ensures
        r == retryable(row@, job_type@),
{
    matches!(row.status, JobStatus::Failed) && row.attempts < row.max_attempts && row.job_type
        == *job_type
}

impl JobStore {
    /// Upserts the worker's registry row with `last_seen` = `now`. Absence of
    /// these calls is the only signal of a worker's death.
    pub fn heartbeat(
        &mut self,
        worker_id: &String,
        worker_type: &String,
        storage_name: &String,
        now: i64,
    )
        ensures
            heartbeat_transition(
                old(self)@,
                final(self)@,
                worker_id@,
                worker_type@,
                storage_name@,
                now as int,
            ),
    {
        let n = self.workers.len();
        let mut k: usize = 0;
        while k < n
            invariant
                n == self.workers.len(),
                0 <= k <= n,
                self@ == old(self)@,
                forall|j: int| 0 <= j < k ==> old(self)@.workers[j].id != worker_id@,
            decreases n - k,
        {
            if self.workers[k].id == *worker_id {
                let ghost pre = self@;
                let fresh = WorkerRow {
                    id: worker_id.clone(),
                    worker_type: worker_type.clone(),
                    storage_name: storage_name.clone(),
                    last_seen: now,
                };
                proof {
                    assert(fresh@ =~= worker_record(
                        worker_id@,
                        worker_type@,
                        storage_name@,
                        now as int,
                    ));
                }
                self.workers[k] = fresh;
                proof {
                    assert(self@.workers =~= pre.workers.update(
                        k as int,
                        worker_record(worker_id@, worker_type@, storage_name@, now as int),
                    ));
                    assert(first_worker_at(pre.workers, worker_id@, k as int));
                }
                return ;
            }
            k += 1;
        }
        let fresh = WorkerRow {
            id: worker_id.clone(),
            worker_type: worker_type.clone(),
            storage_name: storage_name.clone(),
            last_seen: now,
        };
        proof {
            assert(fresh@ =~= worker_record(worker_id@, worker_type@, storage_name@, now as int));
        }
        self.workers.push(fresh);
        proof {
            assert(self@.workers =~= old(self)@.workers.push(
                worker_record(worker_id@, worker_type@, storage_name@, now as int),
            ));
            assert forall|j: int| !(#[trigger] first_worker_at(
                old(self)@.workers,
                worker_id@,
                j,
            )) by {
                if first_worker_at(old(self)@.workers, worker_id@, j) {
                    assert(old(self)@.workers[j].id != worker_id@);
                }
            }
        }
    }

    /// The currently retryable row with the oldest lock, the next one the
    /// scheduled sweep recovers.
    fn oldest_retryable(&self, job_type: &String) -> (r: Option<usize>)
        ensures
            match r {
                Some(j) => j < self@.jobs.len() && retryable(self@.jobs[j as int], job_type@)
                    && forall|m: int|
                    0 <= m < self@.jobs.len() && retryable(self@.jobs[m], job_type@)
                        ==> lock_key_le(self@.jobs[j as int].lock_at, self@.jobs[m].lock_at),
                None => forall|m: int|
                    0 <= m < self@.jobs.len() ==> !retryable(self@.jobs[m], job_type@),
            },
    {
        let n = self.jobs.len();
        let mut i: usize = 0;
        let mut best: Option<usize> = None;
        while i < n
            invariant
                n == self.jobs.len(),
                0 <= i <= n,
                match best {
                    Some(b) => b < i && retryable(self@.jobs[b as int], job_type@) && forall|m: int|
                        0 <= m < i && retryable(self@.jobs[m], job_type@) ==> lock_key_le(
                            self@.jobs[b as int].lock_at,
                            self@.jobs[m].lock_at,
                        ),
                    None => forall|m: int| 0 <= m < i ==> !retryable(self@.jobs[m], job_type@),
                },
            decreases n - i,
        {
            if row_retryable(&self.jobs[i], job_type) {
                match best {
                    None => {
                        best = Some(i);
                    },
                    Some(b) => {
                        if !key_le(self.jobs[b].lock_at, self.jobs[i].lock_at) {
                            proof {
                                assert forall|m: int|
                                    0 <= m < i + 1 && retryable(
                                        self@.jobs[m],
                                        job_type@,
                                    ) implies lock_key_le(
                                    self@.jobs[i as int].lock_at,
                                    self@.jobs[m].lock_at,
                                ) by {
                                    if m < i as int {
                                        assert(lock_key_le(
                                            self@.jobs[b as int].lock_at,
                                            self@.jobs[m].lock_at,
                                        ));
                                    }
                                }
                            }
                            best = Some(i);
                        }
                    },
                }
            }
            i += 1;
        }
        best
    }

    /// The scheduled sweep: returns up to `count` `Failed` jobs of the given
    /// type with retries left to `Pending`, oldest lock first, clearing their
    /// lock and completion fields. The result names the rows it reset, in the
    /// order they were recovered.
    pub fn sweep_enqueue_scheduled(&mut self, job_type: &String, count: usize) -> (reset: Vec<
        usize,
    >)
        ensures
            requeue_sweep(old(self)@, final(self)@, job_type@, count as int, reset@),
    {
        let mut reset: Vec<usize> = Vec::new();
        let mut exhausted = false;
        while !exhausted && reset.len() < count
            invariant
                self@.workers == old(self)@.workers,
                self@.jobs.len() == old(self)@.jobs.len(),
                reset@.no_duplicates(),
                forall|k: int|
                    0 <= k < reset@.len() ==> reset@[k] < old(self)@.jobs.len() && retryable(
                        old(self)@.jobs[#[trigger] reset@[k] as int],
                        job_type@,
                    ),
                forall|j: int|
                    0 <= j < old(self)@.jobs.len() && !in_reset(reset@, j) ==> self@.jobs[j] == old(
                        self,
                    )@.jobs[j],
                forall|k: int|
                    0 <= k < reset@.len() ==> self@.jobs[#[trigger] reset@[k] as int] == requeued(
                        old(self)@.jobs[reset@[k] as int],
                    ),
                reset@.len() <= count,
                exhausted ==> forall|j: int|
                    0 <= j < old(self)@.jobs.len() && retryable(old(self)@.jobs[j], job_type@)
                        ==> in_reset(reset@, j),
                forall|k: int, j: int|
                    0 <= k < reset@.len() && 0 <= j < old(self)@.jobs.len() && retryable(
                        old(self)@.jobs[j],
                        job_type@,
                    ) && !in_reset(reset@, j) ==> lock_key_le(
                        old(self)@.jobs[#[trigger] reset@[k] as int].lock_at,
                        (#[trigger] old(self)@.jobs[j]).lock_at,
                    ),
            decreases count - reset.len() + (if exhausted {
                0int
            } else {
                1int
            }),
        {
            match self.oldest_retryable(job_type) {
                None => {
                    proof {
                        assert forall|j: int|
                            0 <= j < old(self)@.jobs.len() && retryable(
                                old(self)@.jobs[j],
                                job_type@,
                            ) implies in_reset(reset@, j) by {
                            if !in_reset(reset@, j) {
                                assert(self@.jobs[j] == old(self)@.jobs[j]);
                                assert(!retryable(self@.jobs[j], job_type@));
                            }
                        }
                    }
                    exhausted = true;
                },
                Some(j) => {
                    proof {
                        if in_reset(reset@, j as int) {
                            let k = choose|k: int|
                                0 <= k < reset@.len() && reset@[k] as int == j as int;
                            assert(self@.jobs[j as int] == requeued(
                                old(self)@.jobs[reset@[k] as int],
                            ));
                            assert(!retryable(self@.jobs[j as int], job_type@));
                        }
                        assert(!in_reset(reset@, j as int));
                        assert(self@.jobs[j as int] == old(self)@.jobs[j as int]);
                    }
                    let ghost pre_jobs = self@.jobs;
                    let ghost pre_reset = reset@;
                    let updated = JobRow {
                        id: self.jobs[j].id.clone(),
                        payload: self.jobs[j].payload.clone(),
                        job_type: self.jobs[j].job_type.clone(),
                        status: JobStatus::Pending,
                        attempts: self.jobs[j].attempts,
                        max_attempts: self.jobs[j].max_attempts,
                        run_at: self.jobs[j].run_at,
                        last_error: clone_opt_string(&self.jobs[j].last_error),
                        lock_at: None,
                        lock_by: None,
                        done_at: None,
                    };
                    proof {
                        assert(updated@ =~= requeued(old(self)@.jobs[j as int]));
                    }
                    self.jobs[j] = updated;
                    reset.push(j);
                    proof {
                        assert(self@.jobs =~= pre_jobs.update(j as int, updated@));
                        assert(reset@ == pre_reset.push(j));
                        assert(reset@[pre_reset.len() as int] as int == j as int);
                        assert(in_reset(reset@, j as int));
                        assert forall|p: int, q: int|
                            0 <= p < reset@.len() && 0 <= q < reset@.len() && p
                                != q implies reset@[p] != reset@[q] by {
                            if p < pre_reset.len() && q < pre_reset.len() {
                                assert(pre_reset[p] != pre_reset[q]);
                            } else if q == pre_reset.len() as int && p < pre_reset.len() {
                                assert(!(0 <= p < pre_reset.len() && pre_reset[p] as int
                                    == j as int));
                            } else if p == pre_reset.len() as int && q < pre_reset.len() {
                                assert(!(0 <= q < pre_reset.len() && pre_reset[q] as int
                                    == j as int));
                            }
                        }
                        assert(reset@.no_duplicates());
                        assert forall|m: int| in_reset(pre_reset, m) implies in_reset(
                            reset@,
                            m,
                        ) by {
                            let k = choose|k: int|
                                0 <= k < pre_reset.len() && pre_reset[k] as int == m;
                            assert(reset@[k] as int == m);
                        }
                        assert forall|m: int|
                            0 <= m < old(self)@.jobs.len() && !in_reset(
                                reset@,
                                m,
                            ) implies self@.jobs[m] == old(self)@.jobs[m] by {
                            assert(!in_reset(pre_reset, m));
                            assert(m != j as int);
                            assert(self@.jobs[m] == pre_jobs[m]);
                        }
                        assert forall|k: int, m: int|
                            0 <= k < reset@.len() && 0 <= m < old(self)@.jobs.len() && retryable(
                                old(self)@.jobs[m],
                                job_type@,
                            ) && !in_reset(reset@, m) implies lock_key_le(
                            old(self)@.jobs[reset@[k] as int].lock_at,
                            old(self)@.jobs[m].lock_at,
                        ) by {
                            assert(!in_reset(pre_reset, m));
                            assert(pre_jobs[m] == old(self)@.jobs[m]);
                            assert(retryable(pre_jobs[m], job_type@));
                            if k < pre_reset.len() {
                                assert(lock_key_le(
                                    old(self)@.jobs[pre_reset[k] as int].lock_at,
                                    old(self)@.jobs[m].lock_at,
                                ));
                            } else {
                                assert(lock_key_le(pre_jobs[j as int].lock_at, pre_jobs[m].lock_at));
                            }
                        }
                    }
                },
            }
        }
        reset
    }

    /// Whether the given lock names a worker whose last heartbeat is strictly
    /// older than the cutoff.
    fn owner_stale(&self, lock_by: &Option<String>, cutoff: i64) -> (r: bool)
        ensures
            r == stale_owner(self@, opt_text(*lock_by), cutoff as int),
    {
        match lock_by {
            None => false,
            Some(w) => {
                let n = self.workers.len();
                let mut k: usize = 0;
                while k < n
                    invariant
                        n == self.workers.len(),
                        0 <= k <= n,
                        opt_text(*lock_by) == Option::Some(w@),
                        forall|j: int|
                            0 <= j < k ==> !(self@.workers[j].id == w@ && self@.workers[j].last_seen
                                < cutoff as int),
                    decreases n - k,
                {
                    if self.workers[k].id == *w && self.workers[k].last_seen < cutoff {
                        proof {
                            assert(opt_text(*lock_by) == Option::Some(w@));
                            assert(self@.workers[k as int].id == w@ && self@.workers[k as int].last_seen
                                < cutoff as int);
                        }
                        return true;
                    }
                    k += 1;
                }
                proof {
                    assert(opt_text(*lock_by) == Option::Some(w@));
                    if stale_owner(self@, opt_text(*lock_by), cutoff as int) {
                        let j = choose|j: int|
                            0 <= j < self@.workers.len() && self@.workers[j].id == w@
                                && self@.workers[j].last_seen < cutoff as int;
                        assert(!(self@.workers[j].id == w@ && self@.workers[j].last_seen
                            < cutoff as int));
                    }
                }
                false
            },
        }
    }

    /// Whether row `i` is an orphan at the cutoff.
    fn row_orphaned(&self, i: usize, job_type: &String, cutoff: i64) -> (r: bool)
        requires
            i < self@.jobs.len(),
        ensures
            r == orphaned(self@, i as int, job_type@, cutoff as int),
    {
        let running = matches!(self.jobs[i].status, JobStatus::Running) && self.jobs[i].job_type
            == *job_type;
        if !running {
            return false;
        }
        self.owner_stale(&self.jobs[i].lock_by, cutoff)
    }

    /// The current orphan with the oldest lock, the next one the orphan sweep
    /// reclaims.
    fn oldest_orphaned(&self, job_type: &String, cutoff: i64) -> (r: Option<usize>)
        ensures
            match r {
                Some(j) => j < self@.jobs.len() && orphaned(self@, j as int, job_type@, cutoff as int)
                    && forall|m: int|
                    0 <= m < self@.jobs.len() && orphaned(self@, m, job_type@, cutoff as int)
                        ==> lock_key_le(self@.jobs[j as int].lock_at, self@.jobs[m].lock_at),
                None => forall|m: int|
                    0 <= m < self@.jobs.len() ==> !orphaned(self@, m, job_type@, cutoff as int),
            },
    {
        let n = self.jobs.len();
        let mut i: usize = 0;
        let mut best: Option<usize> = None;
        while i < n
            invariant
                n == self.jobs.len(),
                0 <= i <= n,
                match best {
                    Some(b) => b < i && orphaned(self@, b as int, job_type@, cutoff as int)
                        && forall|m: int|
                        0 <= m < i && orphaned(self@, m, job_type@, cutoff as int) ==> lock_key_le(
                            self@.jobs[b as int].lock_at,
                            self@.jobs[m].lock_at,
                        ),
                    None => forall|m: int|
                        0 <= m < i ==> !orphaned(self@, m, job_type@, cutoff as int),
                },
            decreases n - i,
        {
            if self.row_orphaned(i, job_type, cutoff) {
                match best {
                    None => {
                        best = Some(i);
                    },
                    Some(b) => {
                        if !key_le(self.jobs[b].lock_at, self.jobs[i].lock_at) {
                            proof {
                                assert forall|m: int|
                                    0 <= m < i + 1 && orphaned(
                                        self@,
                                        m,
                                        job_type@,
                                        cutoff as int,
                                    ) implies lock_key_le(
                                    self@.jobs[i as int].lock_at,
                                    self@.jobs[m].lock_at,
                                ) by {
                                    if m < i as int {
                                        assert(lock_key_le(
                                            self@.jobs[b as int].lock_at,
                                            self@.jobs[m].lock_at,
                                        ));
                                    }
                                }
                            }
                            best = Some(i);
                        }
                    },
                }
            }
            i += 1;
        }
        best
    }

    /// The orphan sweep: returns up to `count` `Running` jobs of the given
    /// type whose owning worker has not been seen for `liveness_timeout`
    /// seconds before `now` back to `Pending`, oldest lock first, clearing
    /// their lock and completion fields and recording the abandonment marker.
    /// The attempt counter is left alone. The result names the rows it reset,
    /// in the order they were recovered.
    pub fn sweep_reclaim_orphans(
        &mut self,
        job_type: &String,
        count: usize,
        now: i64,
        liveness_timeout: i64,
    ) -> (reset: Vec<usize>)
        requires
            0 <= liveness_timeout,
            i64::MIN + liveness_timeout <= now,
        ensures
            reclaim_sweep(
                old(self)@,
                final(self)@,
                job_type@,
                count as int,
                now as int - liveness_timeout as int,
                reset@,
            ),
    {
        let cutoff = now - liveness_timeout;
        let mut reset: Vec<usize> = Vec::new();
        let mut exhausted = false;
        while !exhausted && reset.len() < count
            invariant
                cutoff == now as int - liveness_timeout as int,
                self@.workers == old(self)@.workers,
                self@.jobs.len() == old(self)@.jobs.len(),
                reset@.no_duplicates(),
                forall|k: int|
                    0 <= k < reset@.len() ==> reset@[k] < old(self)@.jobs.len() && orphaned(
                        old(self)@,
                        #[trigger] reset@[k] as int,
                        job_type@,
                        cutoff as int,
                    ),
                forall|j: int|
                    0 <= j < old(self)@.jobs.len() && !in_reset(reset@, j) ==> self@.jobs[j] == old(
                        self,
                    )@.jobs[j],
                forall|k: int|
                    0 <= k < reset@.len() ==> self@.jobs[#[trigger] reset@[k] as int] == abandoned(
                        old(self)@.jobs[reset@[k] as int],
                    ),
                reset@.len() <= count,
                exhausted ==> forall|j: int|
                    0 <= j < old(self)@.jobs.len() && orphaned(
                        old(self)@,
                        j,
                        job_type@,
                        cutoff as int,
                    ) ==> in_reset(reset@, j),
                forall|k: int, j: int|
                    0 <= k < reset@.len() && 0 <= j < old(self)@.jobs.len() && orphaned(
                        old(self)@,
                        j,
                        job_type@,
                        cutoff as int,
                    ) && !in_reset(reset@, j) ==> lock_key_le(
                        old(self)@.jobs[#[trigger] reset@[k] as int].lock_at,
                        (#[trigger] old(self)@.jobs[j]).lock_at,
                    ),
            decreases count - reset.len() + (if exhausted {
                0int
            } else {
                1int
            }),
        {
            let ghost pre_view = self@;
            match self.oldest_orphaned(job_type, cutoff) {
                None => {
                    proof {
                        assert forall|j: int|
                            0 <= j < old(self)@.jobs.len() && orphaned(
                                old(self)@,
                                j,
                                job_type@,
                                cutoff as int,
                            ) implies in_reset(reset@, j) by {
                            if !in_reset(reset@, j) {
                                assert(self@.jobs[j] == old(self)@.jobs[j]);
                                lemma_orphan_same(self@, old(self)@, j, job_type@, cutoff as int);
                                assert(!orphaned(self@, j, job_type@, cutoff as int));
                            }
                        }
                    }
                    exhausted = true;
                },
                Some(j) => {
                    proof {
                        if in_reset(reset@, j as int) {
                            let k = choose|k: int|
                                0 <= k < reset@.len() && reset@[k] as int == j as int;
                            assert(self@.jobs[j as int] == abandoned(
                                old(self)@.jobs[reset@[k] as int],
                            ));
                            assert(!orphaned(self@, j as int, job_type@, cutoff as int));
                        }
                        assert(!in_reset(reset@, j as int));
                        assert(self@.jobs[j as int] == old(self)@.jobs[j as int]);
                        lemma_orphan_same(self@, old(self)@, j as int, job_type@, cutoff as int);
                        assert(orphaned(old(self)@, j as int, job_type@, cutoff as int));
                    }
                    let ghost pre_jobs = self@.jobs;
                    let ghost pre_reset = reset@;
                    let updated = JobRow {
                        id: self.jobs[j].id.clone(),
                        payload: self.jobs[j].payload.clone(),
                        job_type: self.jobs[j].job_type.clone(),
                        status: JobStatus::Pending,
                        attempts: self.jobs[j].attempts,
                        max_attempts: self.jobs[j].max_attempts,
                        run_at: self.jobs[j].run_at,
                        last_error: Some(String::from_str("Job was abandoned")),
                        lock_at: None,
                        lock_by: None,
                        done_at: None,
                    };
                    proof {
                        assert(updated@ =~= abandoned(old(self)@.jobs[j as int]));
                    }
                    self.jobs[j] = updated;
                    reset.push(j);
                    proof {
                        assert(self@.jobs =~= pre_jobs.update(j as int, updated@));
                        assert(reset@ == pre_reset.push(j));
                        assert(reset@[pre_reset.len() as int] as int == j as int);
                        assert(in_reset(reset@, j as int));
                        assert forall|p: int, q: int|
                            0 <= p < reset@.len() && 0 <= q < reset@.len() && p
                                != q implies reset@[p] != reset@[q] by {
                            if p < pre_reset.len() && q < pre_reset.len() {
                                assert(pre_reset[p] != pre_reset[q]);
                            } else if q == pre_reset.len() as int && p < pre_reset.len() {
                                assert(!(0 <= p < pre_reset.len() && pre_reset[p] as int
                                    == j as int));
                            } else if p == pre_reset.len() as int && q < pre_reset.len() {
                                assert(!(0 <= q < pre_reset.len() && pre_reset[q] as int
                                    == j as int));
                            }
                        }
                        assert(reset@.no_duplicates());
                        assert forall|m: int| in_reset(pre_reset, m) implies in_reset(
                            reset@,
                            m,
                        ) by {
                            let k = choose|k: int|
                                0 <= k < pre_reset.len() && pre_reset[k] as int == m;
                            assert(reset@[k] as int == m);
                        }
                        assert forall|m: int|
                            0 <= m < old(self)@.jobs.len() && !in_reset(
                                reset@,
                                m,
                            ) implies self@.jobs[m] == old(self)@.jobs[m] by {
                            assert(!in_reset(pre_reset, m));
                            assert(m != j as int);
                            assert(self@.jobs[m] == pre_jobs[m]);
                        }
                        assert forall|k: int, m: int|
                            0 <= k < reset@.len() && 0 <= m < old(self)@.jobs.len() && orphaned(
                                old(self)@,
                                m,
                                job_type@,
                                cutoff as int,
                            ) && !in_reset(reset@, m) implies lock_key_le(
                            old(self)@.jobs[reset@[k] as int].lock_at,
                            old(self)@.jobs[m].lock_at,
                        ) by {
                            assert(!in_reset(pre_reset, m));
                            assert(pre_jobs[m] == old(self)@.jobs[m]);
                            if k < pre_reset.len() {
                                assert(lock_key_le(
                                    old(self)@.jobs[pre_reset[k] as int].lock_at,
                                    old(self)@.jobs[m].lock_at,
                                ));
                            } else {
                                lemma_orphan_same(
                                    pre_view,
                                    old(self)@,
                                    m,
                                    job_type@,
                                    cutoff as int,
                                );
                                assert(orphaned(pre_view, m, job_type@, cutoff as int));
                                assert(lock_key_le(
                                    pre_view.jobs[j as int].lock_at,
                                    pre_view.jobs[m].lock_at,
                                ));
                            }
                        }
                    }
                },
            }
        }
        reset
    }
}

} // verus!
