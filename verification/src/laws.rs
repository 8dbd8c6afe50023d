//! The queue's laws: properties that hold across operations, proved once and
//! for all over the store's mathematical view. Each proof function's
//! hypotheses are the transition predicates that the executable operations
//! establish in their contracts.

use crate::claim::{claim_succeeds, claim_transition};
use crate::job::{
    abandoned, claimable, claimed, eligible, owner_guarded, pending_row, retryable, JobStatus,
};
use crate::lifecycle::{finalize_transition, reschedule_transition};
use crate::registry::{in_reset, orphaned, reclaim_sweep, requeue_sweep};
use crate::store::{first_match_at, StoreView};
use vstd::prelude::*;

verus! {

/// A freshly enqueued record starts `Pending`, with no attempts and no owner.
pub proof fn lemma_enqueued_row_is_initial(
    id: Seq<char>,
    job_type: Seq<char>,
    payload: Seq<char>,
    run_at: int,
)
    ensures
        pending_row(id, job_type, payload, run_at).status == JobStatus::Pending,
        pending_row(id, job_type, payload, run_at).attempts == 0,
        pending_row(id, job_type, payload, run_at).lock_by is None,
        pending_row(id, job_type, payload, run_at).payload == payload,
{
}

/// At most one of any number of claim attempts on the same id succeeds:
/// once a conditional claim has gone through, no row with that id is
/// claimable any more, so every later attempt reports failure until a
/// lifecycle operation or a sweep releases the job again.
pub proof fn lemma_claim_is_exclusive(
    pre: StoreView,
    post: StoreView,
    id: Seq<char>,
    worker: Seq<char>,
)
    requires
        claim_transition(pre, post, id, worker),
    ensures
        !claim_succeeds(post, id),
{
    if claim_succeeds(post, id) {
        let i = choose|i: int|
            0 <= i < post.jobs.len() && post.jobs[i].id == id && claimable(post.jobs[i]);
        assert(post.jobs[i] == (if pre.jobs[i].id == id && claimable(pre.jobs[i]) {
            claimed(pre.jobs[i], worker)
        } else {
            pre.jobs[i]
        }));
    }
}

/// An `ack` or `kill` by a worker that does not hold the job's lock is a
/// no-op: when every row with the id is locked by some other worker, the
/// store comes out exactly as it went in.
pub proof fn lemma_foreign_finalize_is_noop(
    pre: StoreView,
    post: StoreView,
    owner: Seq<char>,
    caller: Seq<char>,
    id: Seq<char>,
    status: JobStatus,
    now: int,
)
    requires
        finalize_transition(pre, post, caller, id, status, now),
        forall|i: int|
            0 <= i < pre.jobs.len() && pre.jobs[i].id == id ==> pre.jobs[i].lock_by
                == Option::Some(owner),
        owner != caller,
    ensures
        post == pre,
{
    assert forall|i: int| 0 <= i < pre.jobs.len() implies post.jobs[i] == pre.jobs[i] by {
        assert(!owner_guarded(pre.jobs[i], id, caller));
    }
    assert(post.jobs =~= pre.jobs);
    assert(post =~= pre);
}

/// A rescheduled job is parked: every row with the id comes out `Failed`,
/// due at the new time, not claimable, and not selectable as a candidate —
/// for any worker type — at any instant before that time.
pub proof fn lemma_reschedule_defers(pre: StoreView, post: StoreView, id: Seq<char>, run_at: int)
    requires
        reschedule_transition(pre, post, id, run_at),
    ensures
        forall|i: int|
            0 <= i < pre.jobs.len() && pre.jobs[i].id == id ==> (#[trigger] post.jobs[i]).status
                == JobStatus::Failed && post.jobs[i].run_at == run_at && !claimable(post.jobs[i]),
        forall|i: int, t: Seq<char>, at: int|
            0 <= i < pre.jobs.len() && pre.jobs[i].id == id && at < run_at ==> !(
            #[trigger] eligible(post.jobs[i], t, at)),
{
}

/// The orphan sweep touches only orphans: a `Running` job whose owner has
/// heartbeated at or after the cutoff — or any job that is not a stale
/// `Running` job of the swept type — keeps its row exactly.
pub proof fn lemma_live_owner_untouched(
    pre: StoreView,
    post: StoreView,
    job_type: Seq<char>,
    count: int,
    cutoff: int,
    reset: Seq<usize>,
    j: int,
)
    requires
        reclaim_sweep(pre, post, job_type, count, cutoff, reset),
        0 <= j < pre.jobs.len(),
        !orphaned(pre, j, job_type, cutoff),
    ensures
        post.jobs[j] == pre.jobs[j],
{
    if in_reset(reset, j) {
        let k = choose|k: int| 0 <= k < reset.len() && reset[k] as int == j;
        assert(orphaned(pre, reset[k] as int, job_type, cutoff));
    }
}

/// The orphan sweep reclaims every orphan it has room for: when the sweep
/// came back under its bound, each `Running` job of the swept type whose
/// owner was last seen strictly before the cutoff is back in `Pending`,
/// unlocked, and marked abandoned.
pub proof fn lemma_stale_owner_reclaimed(
    pre: StoreView,
    post: StoreView,
    job_type: Seq<char>,
    count: int,
    cutoff: int,
    reset: Seq<usize>,
    j: int,
)
    requires
        reclaim_sweep(pre, post, job_type, count, cutoff, reset),
        0 <= j < pre.jobs.len(),
        orphaned(pre, j, job_type, cutoff),
        reset.len() < count,
    ensures
        in_reset(reset, j),
        post.jobs[j] == abandoned(pre.jobs[j]),
        post.jobs[j].status == JobStatus::Pending,
        post.jobs[j].lock_by is None,
{
    assert(in_reset(reset, j));
    let k = choose|k: int| 0 <= k < reset.len() && reset[k] as int == j;
    assert(post.jobs[reset[k] as int] == abandoned(pre.jobs[reset[k] as int]));
}

/// The payload survives the trip through enqueue and claim: pushing a fresh
/// row and then claiming its id leaves, at the new row's position, the first
/// and only row with that id, now `Running` and owned by the claimant, with
/// the payload unchanged — what a point lookup after a claim returns.
pub proof fn lemma_payload_round_trip(
    s0: StoreView,
    s1: StoreView,
    s2: StoreView,
    id: Seq<char>,
    job_type: Seq<char>,
    payload: Seq<char>,
    run_at: int,
    worker: Seq<char>,
)
    requires
        forall|i: int| 0 <= i < s0.jobs.len() ==> (#[trigger] s0.jobs[i]).id != id,
        s1.jobs == s0.jobs.push(pending_row(id, job_type, payload, run_at)),
        s1.workers == s0.workers,
        claim_transition(s1, s2, id, worker),
    ensures
        claim_succeeds(s1, id),
        first_match_at(s2.jobs, id, s0.jobs.len() as int),
        s2.jobs[s0.jobs.len() as int].payload == payload,
        s2.jobs[s0.jobs.len() as int].status == JobStatus::Running,
        s2.jobs[s0.jobs.len() as int].lock_by == Option::Some(worker),
{
    let n = s0.jobs.len() as int;
    assert(s1.jobs[n] == pending_row(id, job_type, payload, run_at));
    assert(claimable(s1.jobs[n]));
    assert(s2.jobs[n] == claimed(s1.jobs[n], worker));
    assert forall|j: int| 0 <= j < n implies s2.jobs[j].id != id by {
        assert(s1.jobs[j] == s0.jobs[j]);
    }
}

/// The dead-letter outcome: a `Failed` job whose attempts have reached its
/// ceiling is left alone by the scheduled sweep and by the orphan sweep, so
/// no sequence of sweeps ever returns it to `Pending`.
pub proof fn lemma_dead_letter_is_never_requeued(
    s0: StoreView,
    s1: StoreView,
    s2: StoreView,
    job_type: Seq<char>,
    count1: int,
    count2: int,
    cutoff: int,
    reset1: Seq<usize>,
    reset2: Seq<usize>,
    i: int,
)
    requires
        requeue_sweep(s0, s1, job_type, count1, reset1),
        reclaim_sweep(s1, s2, job_type, count2, cutoff, reset2),
        0 <= i < s0.jobs.len(),
        s0.jobs[i].status == JobStatus::Failed,
        s0.jobs[i].attempts >= s0.jobs[i].max_attempts,
    ensures
        s2.jobs[i] == s0.jobs[i],
        s2.jobs[i].status == JobStatus::Failed,
{
    assert(!retryable(s0.jobs[i], job_type));
    if in_reset(reset1, i) {
        let k = choose|k: int| 0 <= k < reset1.len() && reset1[k] as int == i;
        assert(retryable(s0.jobs[reset1[k] as int], job_type));
    }
    assert(s1.jobs[i] == s0.jobs[i]);
    assert(!orphaned(s1, i, job_type, cutoff));
    if in_reset(reset2, i) {
        let k = choose|k: int| 0 <= k < reset2.len() && reset2[k] as int == i;
        assert(orphaned(s1, reset2[k] as int, job_type, cutoff));
    }
    assert(s2.jobs[i] == s1.jobs[i]);
}

} // verus!
