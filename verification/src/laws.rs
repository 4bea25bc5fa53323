//! What holds of the scheduler as a whole.

use vstd::prelude::*;
use vstd::multiset::Multiset;
use crate::api;
use crate::api::{QueueStats, SubmitRequest, MAX_PRIORITY, MAX_TIMEOUT_SECS};
use crate::history;
use crate::job::{JobStatus, JobView, PendingJob};
use crate::output;
use crate::output::MAX_OUTPUT_BYTES;
use crate::queue;
use crate::run;
use crate::run::{RunOutcome, RunResultView};
use crate::scheduler;
use crate::scheduler::SchedulerView;
use crate::time::Timestamp;

verus! {

// The invariant.

/// Whether an output is one that a job may keep.
pub open spec fn bounded_output(s: Option<Seq<char>>) -> bool {
    match s {
        Some(t) => output::byte_len(t) <= MAX_OUTPUT_BYTES + output::byte_len(
            output::truncation_note(),
        ),
        None => true,
    }
}

/// What holds of every job at any time: its priority and its time limit are within bounds, it
/// has an end time exactly if its life has ended, it has a start time exactly if it was started,
/// its exit code fits its status, and its outputs are bounded.
pub open spec fn sound_job(j: JobView) -> bool {
    &&& j.priority <= MAX_PRIORITY
    &&& 1 <= j.timeout_secs <= MAX_TIMEOUT_SECS
    &&& j.completed_at is Some <==> j.status.finished()
    &&& j.started_at is None <==> (j.status is Pending || j.status is Cancelled)
    &&& j.status is Completed ==> j.exit_code == Some(0i32)
    &&& j.exit_code is Some ==> j.status is Completed || (j.status is Failed && j.exit_code != Some(
        0i32,
    ))
    &&& !j.status.finished() ==> j.stdout is None && j.stderr is None
    &&& bounded_output(j.stdout)
    &&& bounded_output(j.stderr)
}

/// Whether no two jobs have the same identifier.
pub open spec fn distinct_ids(jobs: Seq<JobView>) -> bool {
    forall|i: int, j: int|
        0 <= i < j < jobs.len() ==> (#[trigger] jobs[i]).id != (#[trigger] jobs[j]).id
}

/// Whether an entry of the queue is that of the job at `i`, which waits.
pub open spec fn is_entry_of(jobs: Seq<JobView>, i: int, e: PendingJob) -> bool {
    0 <= i < jobs.len() && jobs[i].status is Pending && jobs[i].entry() == e
}

/// Whether an entry of the queue is that of a job that waits.
pub open spec fn is_entry(jobs: Seq<JobView>, e: PendingJob) -> bool {
    exists|i: int| is_entry_of(jobs, i, e)
}

/// Whether the queue holds one entry for each job that waits and no others.
pub open spec fn queue_matches(jobs: Seq<JobView>, q: Seq<PendingJob>) -> bool {
    &&& forall|k: int| 0 <= k < q.len() ==> is_entry(jobs, #[trigger] q[k])
    &&& forall|i: int|
        0 <= i < jobs.len() && (#[trigger] jobs[i]).status is Pending ==> q.contains(
            jobs[i].entry(),
        )
    &&& forall|k: int, l: int|
        0 <= k < l < q.len() ==> (#[trigger] q[k]).id != (#[trigger] q[l]).id
}

/// The scheduler's invariant: identifiers are distinct, every job is sound, the queue stands in
/// ascending rank and matches the jobs that wait, and as many jobs run as are counted, which
/// are no more than may.
pub open spec fn sound(s: SchedulerView) -> bool {
    &&& distinct_ids(s.jobs)
    &&& forall|i: int| 0 <= i < s.jobs.len() ==> sound_job(#[trigger] s.jobs[i])
    &&& queue::ascending(s.queue)
    &&& queue_matches(s.jobs, s.queue)
    &&& s.running_count == api::count(s.jobs, JobStatus::Running)
    &&& s.running_count <= s.concurrency_limit
}

// Counting.

/// Putting a job in the place of another changes the counts of their statuses only.
proof fn lemma_count_update(jobs: Seq<JobView>, i: int, job: JobView, status: JobStatus)
    requires
        0 <= i < jobs.len(),
    ensures
        api::count(jobs.update(i, job), status) == api::count(jobs, status) - (if jobs[i].status
            == status {
            1int
        } else {
            0int
        }) + (if job.status == status {
            1int
        } else {
            0int
        }),
    decreases jobs.len(),
{
    if i == jobs.len() - 1 {
        assert(jobs.update(i, job).drop_last() == jobs.drop_last());
    } else {
        assert(jobs.update(i, job).drop_last() == jobs.drop_last().update(i, job));
        lemma_count_update(jobs.drop_last(), i, job, status);
    }
}

/// Removing a job changes the count of its status only.
proof fn lemma_count_remove(jobs: Seq<JobView>, i: int, status: JobStatus)
    requires
        0 <= i < jobs.len(),
    ensures
        api::count(jobs.remove(i), status) == api::count(jobs, status) - (if jobs[i].status
            == status {
            1int
        } else {
            0int
        }),
    decreases jobs.len(),
{
    if i == jobs.len() - 1 {
        assert(jobs.remove(i) == jobs.drop_last());
    } else {
        assert(jobs.remove(i).drop_last() == jobs.drop_last().remove(i));
        lemma_count_remove(jobs.drop_last(), i, status);
    }
}

// The operations keep the invariant.

/// A scheduler starts sound.
pub proof fn law_initial_sound(concurrency_limit: nat, max_history: nat)
    ensures
        sound(SchedulerView::initial(concurrency_limit, max_history)),
{
}

/// Submitting a job under a fresh identifier keeps the scheduler sound.
pub proof fn law_submit_sound(s: SchedulerView, req: SubmitRequest, id: u128, now: Timestamp)
    requires
        sound(s),
        s.job(id) is None,
    ensures
        sound(s.submitted(api::requested_job(req, id, now))),
{
    let job = api::requested_job(req, id, now);
    let t = s.submitted(job);
    let e = job.entry();
    scheduler::lemma_position(s.jobs, id);
    queue::lemma_place_of(s.queue, e);
    queue::lemma_with_entry_ascending(s.queue, e);
    let p = queue::place_of(s.queue, e);
    let n = s.jobs.len() as int;
    assert(t.jobs.drop_last() == s.jobs);
    assert forall|k: int| 0 <= k < t.queue.len() implies is_entry(t.jobs, #[trigger] t.queue[k]) by {
        if k == p {
            assert(is_entry_of(t.jobs, n, t.queue[k]));
        } else {
            let k0 = if k < p { k } else { k - 1 };
            assert(t.queue[k] == s.queue[k0]);
            let i = choose|i: int| is_entry_of(s.jobs, i, s.queue[k0]);
            assert(is_entry_of(t.jobs, i, t.queue[k]));
        }
    }
    assert forall|i: int| 0 <= i < t.jobs.len() && (#[trigger] t.jobs[i]).status is Pending implies
        t.queue.contains(t.jobs[i].entry()) by {
        if i == n {
            assert(t.queue[p] == e);
        } else {
            assert(s.queue.contains(s.jobs[i].entry()));
            let k = choose|k: int| 0 <= k < s.queue.len() && s.queue[k] == s.jobs[i].entry();
            assert(t.queue[if k < p { k } else { k + 1 }] == s.queue[k]);
        }
    }
    assert forall|k: int, l: int| 0 <= k < l < t.queue.len() implies (#[trigger] t.queue[k]).id != (
    #[trigger] t.queue[l]).id by {
        if k == p || l == p {
            let m = if k == p { l } else { k };
            let m0 = if m < p { m } else { m - 1 };
            assert(t.queue[m] == s.queue[m0]);
            let i = choose|i: int| is_entry_of(s.jobs, i, s.queue[m0]);
            assert(is_entry_of(s.jobs, i, s.queue[m0]));
            assert(s.jobs[i].id != id);
        } else {
            assert(t.queue[k] == s.queue[if k < p { k } else { k - 1 }]);
            assert(t.queue[l] == s.queue[if l < p { l } else { l - 1 }]);
        }
    }
}

/// Under the invariant a queued job waits, so none is skipped.
proof fn lemma_nothing_stale(s: SchedulerView)
    requires
        sound(s),
    ensures
        scheduler::without_stale(s.jobs, s.queue) == s.queue,
{
    if s.queue.len() > 0 {
        let e = s.queue[s.queue.len() - 1];
        let i = choose|i: int| is_entry_of(s.jobs, i, e);
        assert(is_entry_of(s.jobs, i, e));
        assert(s.jobs[i].id == e.id);
    }
}

/// Where identifiers are distinct, a job is found at its place.
proof fn lemma_position_distinct(jobs: Seq<JobView>, i: int)
    requires
        distinct_ids(jobs),
        0 <= i < jobs.len(),
    ensures
        scheduler::position(jobs, jobs[i].id) == Some(i),
{
    scheduler::lemma_position_is(jobs, jobs[i].id, i);
}

/// Cancelling a job keeps the scheduler sound.
pub proof fn law_cancel_sound(s: SchedulerView, id: u128, now: Timestamp)
    requires
        sound(s),
    ensures
        sound(s.cancelled(id, now)),
{
    let t = s.cancelled(id, now);
    scheduler::lemma_position(s.jobs, id);
    if s.job(id) is Some && s.job(id)->0.status is Pending {
        let p = scheduler::position(s.jobs, id)->0;
        let job = t.jobs[p];
        assert(t.jobs == s.jobs.update(p, job));
        lemma_count_update(s.jobs, p, job, JobStatus::Running);
        queue::lemma_without_job_ascending(s.queue, id);
        let keep = |e: PendingJob| e.id != id;
        assert(t.queue == s.queue.filter(keep));
        assert forall|k: int| 0 <= k < t.queue.len() implies is_entry(t.jobs, #[trigger] t.queue[k]) by {
            queue::lemma_filter_origin(s.queue, keep, k);
            let m = choose|m: int| 0 <= m < s.queue.len() && s.queue[m] == t.queue[k];
            let i = choose|i: int| is_entry_of(s.jobs, i, s.queue[m]);
            assert(is_entry_of(s.jobs, i, s.queue[m]));
            assert(is_entry_of(t.jobs, i, t.queue[k]));
        }
        assert forall|i: int| 0 <= i < t.jobs.len() && (#[trigger] t.jobs[i]).status is Pending
            implies t.queue.contains(t.jobs[i].entry()) by {
            assert(i != p);
            assert(s.jobs[i].id != s.jobs[p].id);
            let k = choose|k: int| 0 <= k < s.queue.len() && s.queue[k] == s.jobs[i].entry();
            s.queue.lemma_filter_contains(keep, k);
        }
        lemma_filter_distinct(s.queue, keep);
    }
}

/// A filter keeps the entries of a queue distinct.
proof fn lemma_filter_distinct(q: Seq<PendingJob>, keep: spec_fn(PendingJob) -> bool)
    requires
        forall|k: int, l: int|
            0 <= k < l < q.len() ==> (#[trigger] q[k]).id != (#[trigger] q[l]).id,
    ensures
        forall|k: int, l: int|
            0 <= k < l < q.filter(keep).len() ==> (#[trigger] q.filter(keep)[k]).id != (
            #[trigger] q.filter(keep)[l]).id,
    decreases q.len(),
{
    reveal(Seq::filter);
    if q.len() > 0 {
        let rest = q.drop_last().filter(keep);
        let r = q.filter(keep);
        lemma_filter_distinct(q.drop_last(), keep);
        assert forall|k: int, l: int| 0 <= k < l < r.len() implies (#[trigger] r[k]).id != (
        #[trigger] r[l]).id by {
            assert(r[k] == rest[k]);
            if l < rest.len() {
                assert(r[l] == rest[l]);
            } else {
                queue::lemma_filter_origin(q.drop_last(), keep, k);
                let m = choose|m: int| 0 <= m < q.len() - 1 && q.drop_last()[m] == rest[k];
                assert(q[m] == rest[k] && r[l] == q[q.len() - 1]);
            }
        }
    }
}

/// Dispatching the next job keeps the scheduler sound. In particular no more jobs run than may.
pub proof fn law_dispatch_sound(s: SchedulerView, now: Timestamp)
    requires
        sound(s),
    ensures
        sound(s.dispatched(now)),
{
    lemma_nothing_stale(s);
    let t = s.dispatched(now);
    if s.running_count < s.concurrency_limit && s.queue.len() > 0 {
        let last = s.queue.len() - 1;
        let e = s.queue[last];
        let p = choose|i: int| is_entry_of(s.jobs, i, e);
        assert(is_entry_of(s.jobs, p, e));
        lemma_position_distinct(s.jobs, p);
        let job = t.jobs[p];
        assert(t.jobs == s.jobs.update(p, job));
        assert(t.queue == s.queue.drop_last());
        lemma_count_update(s.jobs, p, job, JobStatus::Running);
        assert forall|k: int| 0 <= k < t.queue.len() implies is_entry(t.jobs, #[trigger] t.queue[k]) by {
            assert(t.queue[k] == s.queue[k]);
            let i = choose|i: int| is_entry_of(s.jobs, i, s.queue[k]);
            assert(is_entry_of(s.jobs, i, s.queue[k]));
            assert(s.queue[k].id != s.queue[last].id);
            assert(is_entry_of(t.jobs, i, t.queue[k]));
        }
        assert forall|i: int| 0 <= i < t.jobs.len() && (#[trigger] t.jobs[i]).status is Pending
            implies t.queue.contains(t.jobs[i].entry()) by {
            assert(i != p);
            assert(s.jobs[i].id != s.jobs[p].id);
            let k = choose|k: int| 0 <= k < s.queue.len() && s.queue[k] == s.jobs[i].entry();
            assert(k != last);
            assert(t.queue[k] == s.queue[k]);
        }
    }
}

/// Leaving out a finished job keeps the rest of the state sound.
proof fn lemma_remove_finished_sound(s: SchedulerView, i: int)
    requires
        sound(s),
        0 <= i < s.jobs.len(),
        s.jobs[i].status.finished(),
    ensures
        sound(SchedulerView { jobs: s.jobs.remove(i), ..s }),
{
    let r = s.jobs.remove(i);
    lemma_count_remove(s.jobs, i, JobStatus::Running);
    assert forall|k: int| 0 <= k < r.len() implies #[trigger] r[k] == s.jobs[if k < i {
        k
    } else {
        k + 1
    }] by {}
    assert forall|k: int| 0 <= k < s.queue.len() implies is_entry(r, #[trigger] s.queue[k]) by {
        let j = choose|j: int| is_entry_of(s.jobs, j, s.queue[k]);
        assert(is_entry_of(s.jobs, j, s.queue[k]));
        assert(is_entry_of(r, if j < i { j } else { j - 1 }, s.queue[k]));
    }
}

/// Leaving out the oldest finished jobs keeps the rest of the state sound.
proof fn lemma_without_oldest_sound(s: SchedulerView, n: nat)
    requires
        sound(s),
    ensures
        sound(SchedulerView { jobs: history::without_oldest(s.jobs, n), ..s }),
    decreases n,
{
    if n > 0 && exists|i: int| history::is_oldest(s.jobs, i) {
        let i = choose|i: int| history::is_oldest(s.jobs, i);
        lemma_remove_finished_sound(s, i);
        lemma_without_oldest_sound(
            SchedulerView { jobs: s.jobs.remove(i), ..s },
            (n - 1) as nat,
        );
    }
}

/// Cutting the history down to its limit keeps the scheduler sound.
pub proof fn law_evict_sound(s: SchedulerView)
    requires
        sound(s),
    ensures
        sound(s.limited()),
{
    if s.max_history != 0 && s.jobs.len() > s.max_history {
        lemma_without_oldest_sound(s, (s.jobs.len() - s.max_history) as nat);
    }
}

/// Entering the result of a job that runs keeps the scheduler sound.
pub proof fn law_complete_sound(s: SchedulerView, id: u128, result: RunResultView, now: Timestamp)
    requires
        sound(s),
        s.job(id) is Some,
        s.job(id)->0.status is Running,
    ensures
        sound(s.completed(id, result, now)),
{
    scheduler::lemma_position(s.jobs, id);
    let p = scheduler::position(s.jobs, id)->0;
    let job = run::completed_job(s.jobs[p], result, now);
    lemma_count_update(s.jobs, p, job, JobStatus::Running);
    lemma_completed_job_sound(s.jobs[p], result, now);
    let t = SchedulerView {
        running_count: (s.running_count - 1) as nat,
        jobs: s.jobs.update(p, job),
        ..s
    };
    assert forall|k: int| 0 <= k < t.queue.len() implies is_entry(t.jobs, #[trigger] t.queue[k]) by {
        let i = choose|i: int| is_entry_of(s.jobs, i, s.queue[k]);
        assert(is_entry_of(s.jobs, i, s.queue[k]));
        assert(is_entry_of(t.jobs, i, t.queue[k]));
    }
    assert(sound(t));
    law_evict_sound(t);
    assert(s.completed(id, result, now) == t.limited());
}

/// A job that ran is sound once it has its result.
proof fn lemma_completed_job_sound(job: JobView, result: RunResultView, now: Timestamp)
    requires
        sound_job(job),
        job.status is Running,
    ensures
        sound_job(run::completed_job(job, result, now)),
        run::completed_job(job, result, now).status.finished(),
{
    match result {
        RunResultView::Finished { exit_code, stdout, stderr } => {
            output::law_truncated(stdout, MAX_OUTPUT_BYTES as nat);
            output::law_truncated(stderr, MAX_OUTPUT_BYTES as nat);
        },
        RunResultView::Error { message } => {
            output::law_truncated("Execution error: "@ + message, MAX_OUTPUT_BYTES as nat);
        },
        RunResultView::TimedOut { stdout, message } => {
            output::law_truncated(stdout, MAX_OUTPUT_BYTES as nat);
            output::law_truncated(message, MAX_OUTPUT_BYTES as nat);
        },
    }
}

// Submission.

/// The job that a request asks for has a priority and a time limit within bounds; those that
/// are within bounds already stay as they are.
pub proof fn law_request_bounds(req: SubmitRequest, id: u128, now: Timestamp)
    ensures
        sound_job(api::requested_job(req, id, now)),
        req.priority <= MAX_PRIORITY ==> api::requested_job(req, id, now).priority == req.priority,
        1 <= req.timeout_secs <= MAX_TIMEOUT_SECS ==> api::requested_job(req, id, now).timeout_secs
            == req.timeout_secs,
{
}

/// A job that was submitted under a fresh identifier is found under it, and every other job as
/// before.
pub proof fn law_submitted_is_found(s: SchedulerView, job: JobView, other: u128)
    requires
        s.job(job.id) is None,
        other != job.id,
    ensures
        s.submitted(job).job(job.id) == Some(job),
        s.submitted(job).job(other) == s.job(other),
{
    let t = s.submitted(job);
    scheduler::lemma_position(s.jobs, job.id);
    scheduler::lemma_position_is(t.jobs, job.id, s.jobs.len() as int);
    scheduler::lemma_position(s.jobs, other);
    scheduler::lemma_position(t.jobs, other);
    assert(forall|i: int| 0 <= i < s.jobs.len() ==> #[trigger] t.jobs[i] == s.jobs[i]);
    if s.job(other) is Some {
        scheduler::lemma_position_is(t.jobs, other, scheduler::position(s.jobs, other)->0);
    }
}

// Replacing a job.

/// Putting a job in the place of the first with its identifier changes what is found under that
/// identifier only.
proof fn lemma_with_job(s: SchedulerView, id: u128, job: JobView, other: u128)
    requires
        job.id == id,
        s.job(id) is Some,
        other != id,
    ensures
        s.with_job(id, job).job(id) == Some(job),
        s.with_job(id, job).job(other) == s.job(other),
{
    let t = s.with_job(id, job);
    scheduler::lemma_position(s.jobs, id);
    let p = scheduler::position(s.jobs, id)->0;
    assert(t.jobs == s.jobs.update(p, job));
    assert(forall|i: int|
        0 <= i < s.jobs.len() ==> (#[trigger] t.jobs[i]).id == s.jobs[i].id);
    scheduler::lemma_position_is(t.jobs, id, p);
    scheduler::lemma_position(s.jobs, other);
    scheduler::lemma_position(t.jobs, other);
    if s.job(other) is Some {
        scheduler::lemma_position_is(t.jobs, other, scheduler::position(s.jobs, other)->0);
    } else {
        assert(forall|j: int| 0 <= j < s.jobs.len() ==> (#[trigger] t.jobs[j]).id != other);
    }
}

// Cancelling.

/// A job that waits is cancelled by a request to do so: it is found as cancelled, it is not the
/// next job to run, and a further request changes nothing. Every other job is found as before.
pub proof fn law_cancel(s: SchedulerView, id: u128, now: Timestamp, later: Timestamp, other: u128)
    requires
        s.job(id) is Some,
        s.job(id)->0.status is Pending,
        other != id,
    ensures
        s.cancelled(id, now).job(id) == Some(
            JobView {
                status: JobStatus::Cancelled,
                completed_at: Some(now),
                ..s.job(id)->0
            },
        ),
        s.cancelled(id, now).next() != Some(id),
        s.cancelled(id, now).cancelled(id, later) == s.cancelled(id, now),
        s.cancelled(id, now).job(other) == s.job(other),
{
    let old_job = s.job(id)->0;
    let job = JobView { status: JobStatus::Cancelled, completed_at: Some(now), ..old_job };
    let t = s.cancelled(id, now);
    scheduler::lemma_position(s.jobs, id);
    lemma_with_job(s, id, job, other);
    assert(t.jobs == s.with_job(id, job).jobs);
    let keep = |e: PendingJob| e.id != id;
    assert forall|k: int| 0 <= k < t.queue.len() implies (#[trigger] t.queue[k]).id != id by {
        queue::lemma_filter_origin(s.queue, keep, k);
    }
    lemma_without_stale_prefix(t.jobs, t.queue);
}

/// What is left of a queue without its stale end is a first part of it.
proof fn lemma_without_stale_prefix(jobs: Seq<JobView>, q: Seq<PendingJob>)
    ensures
        scheduler::without_stale(jobs, q).len() <= q.len(),
        scheduler::without_stale(jobs, q) == q.take(
            scheduler::without_stale(jobs, q).len() as int,
        ),
    decreases q.len(),
{
    if q.len() == 0 || scheduler::waits(jobs, q.last().id) {
        assert(q.take(q.len() as int) == q);
    } else {
        lemma_without_stale_prefix(jobs, q.drop_last());
        let n = scheduler::without_stale(jobs, q).len() as int;
        assert(q.drop_last().take(n) == q.take(n));
    }
}

/// A request to cancel a job that does not wait, or that does not exist, changes nothing.
pub proof fn law_cancel_refused(s: SchedulerView, id: u128, now: Timestamp)
    requires
        s.job(id) is Some ==> !(s.job(id)->0.status is Pending),
    ensures
        s.cancelled(id, now) == s,
{
}

// Dispatching.

/// A job is dispatched exactly if fewer jobs run than may and some job waits. It is one that
/// waits; none that waits has a higher priority, and none of the same priority was submitted
/// earlier.
pub proof fn law_dispatch_order(s: SchedulerView)
    requires
        sound(s),
    ensures
        s.next() is Some <==> s.running_count < s.concurrency_limit && exists|i: int|
            0 <= i < s.jobs.len() && (#[trigger] s.jobs[i]).status is Pending,
        s.next() is Some ==> {
            let job = s.job(s.next()->0);
            &&& job is Some
            &&& job->0.status is Pending
            &&& forall|i: int|
                0 <= i < s.jobs.len() && (#[trigger] s.jobs[i]).status is Pending ==> {
                    ||| s.jobs[i].priority < job->0.priority
                    ||| s.jobs[i].priority == job->0.priority && !s.jobs[i].submitted_at.before(
                        job->0.submitted_at,
                    )
                }
        },
{
    lemma_nothing_stale(s);
    let last = s.queue.len() - 1;
    if s.queue.len() > 0 {
        let e = s.queue[last];
        let p = choose|i: int| is_entry_of(s.jobs, i, e);
        assert(is_entry(s.jobs, e));
        assert(is_entry_of(s.jobs, p, e));
        lemma_position_distinct(s.jobs, p);
        assert(s.jobs[p].status is Pending);
        assert forall|i: int| 0 <= i < s.jobs.len() && (#[trigger] s.jobs[i]).status is Pending implies {
            ||| s.jobs[i].priority < s.jobs[p].priority
            ||| s.jobs[i].priority == s.jobs[p].priority && !s.jobs[i].submitted_at.before(
                s.jobs[p].submitted_at,
            )
        } by {
            let k = choose|k: int| 0 <= k < s.queue.len() && s.queue[k] == s.jobs[i].entry();
            assert(s.queue[k] == s.jobs[i].entry());
            assert(k < last ==> !s.queue[last].below(s.queue[k]));
        }
    } else {
        assert forall|i: int| 0 <= i < s.jobs.len() implies !((#[trigger] s.jobs[i]).status is Pending) by {
            if s.jobs[i].status is Pending {
                assert(s.queue.contains(s.jobs[i].entry()));
            }
        }
    }
}

/// The job that is dispatched is found as running since then, and every other job as before.
pub proof fn law_dispatched_runs(s: SchedulerView, now: Timestamp, other: u128)
    requires
        sound(s),
        s.next() is Some,
        s.next() != Some(other),
    ensures
        s.dispatched(now).job(s.next()->0) == Some(
            JobView {
                status: JobStatus::Running,
                started_at: Some(now),
                ..s.job(s.next()->0)->0
            },
        ),
        s.dispatched(now).running_count == s.running_count + 1,
        s.dispatched(now).job(other) == s.job(other),
{
    law_dispatch_order(s);
    let id = s.next()->0;
    let counted = SchedulerView { running_count: s.running_count + 1, ..s.taken() };
    scheduler::lemma_position(s.jobs, id);
    let job = JobView { status: JobStatus::Running, started_at: Some(now), ..s.job(id)->0 };
    lemma_with_job(counted, id, job, other);
}

/// Never do more jobs run than may, not even after a further one was dispatched.
pub proof fn law_running_bounded(s: SchedulerView, now: Timestamp)
    requires
        sound(s),
    ensures
        api::count(s.jobs, JobStatus::Running) <= s.concurrency_limit,
        api::count(s.dispatched(now).jobs, JobStatus::Running) <= s.concurrency_limit,
{
    law_dispatch_sound(s, now);
}

// The history.

/// Some finished job is the oldest, if there is any.
pub proof fn lemma_oldest_exists(jobs: Seq<JobView>, i: int)
    requires
        0 <= i < jobs.len(),
        jobs[i].status.finished(),
    ensures
        exists|o: int| history::is_oldest(jobs, o),
    decreases jobs.len(),
{
    let last = jobs.len() - 1;
    let rest = jobs.drop_last();
    if exists|k: int| 0 <= k < rest.len() && (#[trigger] rest[k]).status.finished() {
        let k = choose|k: int| 0 <= k < rest.len() && (#[trigger] rest[k]).status.finished();
        lemma_oldest_exists(rest, k);
        let o = choose|o: int| history::is_oldest(rest, o);
        assert(forall|j: int| 0 <= j < rest.len() ==> rest[j] == #[trigger] jobs[j]);
        if jobs[last].status.finished() && jobs[last].end_time().before(jobs[o].end_time()) {
            assert forall|j: int|
                0 <= j < jobs.len() && j != last && (#[trigger] jobs[j]).status.finished() implies history::older(
                jobs,
                last,
                j,
            ) by {
                assert(rest[j].status.finished());
                assert(j != o ==> history::older(rest, o, j));
            }
            assert(history::is_oldest(jobs, last));
        } else {
            assert forall|j: int|
                0 <= j < jobs.len() && j != o && (#[trigger] jobs[j]).status.finished() implies history::older(
                jobs,
                o,
                j,
            ) by {
                if j < last {
                    assert(rest[j].status.finished());
                    assert(history::older(rest, o, j));
                }
            }
            assert(history::is_oldest(jobs, o));
        }
    } else {
        assert forall|j: int| 0 <= j < jobs.len() && j != i implies !(#[trigger] jobs[j]).status.finished() by {
            if j < last {
                assert(rest[j] == jobs[j]);
            }
            if i < last {
                assert(rest[i] == jobs[i]);
            }
        }
        assert(history::is_oldest(jobs, i));
    }
}

/// Whether a job's life has not ended.
pub open spec fn is_active(j: JobView) -> bool {
    !j.status.finished()
}

/// Leaving out the `n` oldest finished jobs leaves out `n` jobs, or all that have finished.
pub proof fn lemma_without_oldest_len(jobs: Seq<JobView>, n: nat)
    requires
        n <= jobs.len(),
    ensures
        jobs.len() - n <= history::without_oldest(jobs, n).len() <= jobs.len(),
        history::without_oldest(jobs, n).len() == jobs.len() - n || forall|i: int|
            0 <= i < history::without_oldest(jobs, n).len() ==> is_active(
                #[trigger] history::without_oldest(jobs, n)[i],
            ),
    decreases n,
{
    if n > 0 {
        if exists|i: int| history::is_oldest(jobs, i) {
            let i = choose|i: int| history::is_oldest(jobs, i);
            lemma_without_oldest_len(jobs.remove(i), (n - 1) as nat);
        } else {
            assert forall|i: int| 0 <= i < jobs.len() implies is_active(#[trigger] jobs[i]) by {
                if jobs[i].status.finished() {
                    lemma_oldest_exists(jobs, i);
                }
            }
        }
    }
}

/// A limited history is bounded: once it was cut down, there are no more jobs than the limit
/// unless all of them wait or run, and no more finished jobs than the limit in any case. It is
/// not cut down further than to the limit.
pub proof fn law_history_bounded(s: SchedulerView)
    requires
        s.max_history > 0,
    ensures
        s.limited().jobs.len() <= s.max_history || forall|i: int|
            0 <= i < s.limited().jobs.len() ==> is_active(#[trigger] s.limited().jobs[i]),
        s.limited().jobs.filter(|j: JobView| j.status.finished()).len() <= s.max_history,
        s.jobs.len() <= s.max_history ==> s.limited() == s,
        s.jobs.len() > s.max_history ==> s.max_history <= s.limited().jobs.len() <= s.jobs.len(),
{
    if s.jobs.len() > s.max_history {
        lemma_without_oldest_len(s.jobs, (s.jobs.len() - s.max_history) as nat);
    }
    let r = s.limited().jobs;
    let finished = |j: JobView| j.status.finished();
    r.lemma_filter_len(finished);
    if r.len() > s.max_history && r.filter(finished).len() > 0 {
        queue::lemma_filter_origin(r, finished, 0);
        let i = choose|i: int| 0 <= i < r.len() && r[i] == r.filter(finished)[0];
        assert(is_active(r[i]));
    }
}

/// Cutting the history down a second time changes nothing.
pub proof fn law_eviction_idempotent(s: SchedulerView)
    ensures
        s.limited().limited() == s.limited(),
{
    if s.max_history > 0 {
        law_history_bounded(s);
        let r = s.limited().jobs;
        if r.len() > s.max_history {
            assert forall|i: int| !history::is_oldest(r, i) by {
                assert(0 <= i < r.len() ==> is_active(r[i]));
            }
        }
    }
}

/// Without a limit the history keeps every job.
pub proof fn law_history_unlimited(s: SchedulerView)
    requires
        s.max_history == 0,
    ensures
        s.limited() == s,
{
}

/// Removing a job that a filter leaves out does not change what the filter keeps.
proof fn lemma_filter_remove(jobs: Seq<JobView>, i: int, keep: spec_fn(JobView) -> bool)
    requires
        0 <= i < jobs.len(),
        !keep(jobs[i]),
    ensures
        jobs.remove(i).filter(keep) == jobs.filter(keep),
    decreases jobs.len(),
{
    reveal(Seq::filter);
    if i == jobs.len() - 1 {
        assert(jobs.remove(i) == jobs.drop_last());
    } else {
        assert(jobs.remove(i).drop_last() == jobs.drop_last().remove(i));
        lemma_filter_remove(jobs.drop_last(), i, keep);
    }
}

proof fn lemma_without_oldest_active(jobs: Seq<JobView>, n: nat)
    ensures
        history::without_oldest(jobs, n).filter(|j: JobView| is_active(j)) == jobs.filter(
            |j: JobView| is_active(j),
        ),
    decreases n,
{
    if n > 0 && exists|i: int| history::is_oldest(jobs, i) {
        let i = choose|i: int| history::is_oldest(jobs, i);
        lemma_filter_remove(jobs, i, |j: JobView| is_active(j));
        lemma_without_oldest_active(jobs.remove(i), (n - 1) as nat);
    }
}

/// Cutting the history down keeps every job that waits or runs, in the same order.
pub proof fn law_eviction_keeps_active(s: SchedulerView)
    ensures
        s.limited().jobs.filter(|j: JobView| is_active(j)) == s.jobs.filter(
            |j: JobView| is_active(j),
        ),
{
    if s.max_history != 0 && s.jobs.len() > s.max_history {
        lemma_without_oldest_active(s.jobs, (s.jobs.len() - s.max_history) as nat);
    }
}

/// The jobs that leave a list when another takes its place.
pub open spec fn dropped(before: Seq<JobView>, after: Seq<JobView>) -> Multiset<JobView> {
    before.to_multiset().sub(after.to_multiset())
}

proof fn lemma_without_oldest_members(jobs: Seq<JobView>, n: nat)
    ensures
        history::without_oldest(jobs, n).to_multiset().subset_of(jobs.to_multiset()),
        forall|k: int|
            0 <= k < history::without_oldest(jobs, n).len() ==> jobs.contains(
                #[trigger] history::without_oldest(jobs, n)[k],
            ),
    decreases n,
{
    broadcast use vstd::seq_lib::group_to_multiset_ensures;

    let r = history::without_oldest(jobs, n);
    if n > 0 && exists|i: int| history::is_oldest(jobs, i) {
        let i = choose|i: int| history::is_oldest(jobs, i);
        lemma_without_oldest_members(jobs.remove(i), (n - 1) as nat);
        assert forall|k: int| 0 <= k < r.len() implies jobs.contains(#[trigger] r[k]) by {
            let rest = jobs.remove(i);
            assert(rest.contains(r[k]));
            let m = choose|m: int| 0 <= m < rest.len() && rest[m] == r[k];
            assert(jobs[if m < i { m } else { m + 1 }] == r[k]);
        }
    } else {
        assert forall|k: int| 0 <= k < r.len() implies jobs.contains(#[trigger] r[k]) by {
            assert(jobs[k] == r[k]);
        }
    }
}

proof fn lemma_without_oldest_drops(jobs: Seq<JobView>, n: nat, gone: JobView)
    requires
        dropped(jobs, history::without_oldest(jobs, n)).contains(gone),
    ensures
        gone.status.finished(),
        forall|k: int|
            0 <= k < history::without_oldest(jobs, n).len() && (
            #[trigger] history::without_oldest(jobs, n)[k]).status.finished()
                ==> !history::without_oldest(jobs, n)[k].end_time().before(gone.end_time()),
    decreases n,
{
    broadcast use vstd::seq_lib::group_to_multiset_ensures;

    let r = history::without_oldest(jobs, n);
    if n > 0 && exists|i: int| history::is_oldest(jobs, i) {
        let i = choose|i: int| history::is_oldest(jobs, i);
        let rest = jobs.remove(i);
        lemma_without_oldest_members(rest, (n - 1) as nat);
        assert(rest.to_multiset() == jobs.to_multiset().remove(jobs[i]));
        if gone == jobs[i] {
            assert forall|k: int| 0 <= k < r.len() && (#[trigger] r[k]).status.finished() implies !r[k].end_time().before(
                gone.end_time(),
            ) by {
                assert(rest.contains(r[k]));
                let m = choose|m: int| 0 <= m < rest.len() && rest[m] == r[k];
                let m0 = if m < i { m } else { m + 1 };
                assert(jobs[m0] == r[k]);
                assert(history::older(jobs, i, m0));
            }
        } else {
            assert(dropped(rest, r).count(gone) == dropped(jobs, r).count(gone));
            lemma_without_oldest_drops(rest, (n - 1) as nat, gone);
        }
    } else {
        assert(r == jobs);
    }
}

/// Only finished jobs leave the history, and none of the finished jobs that it keeps ended
/// before one that left.
pub proof fn law_evicts_oldest(s: SchedulerView, gone: JobView)
    requires
        dropped(s.jobs, s.limited().jobs).contains(gone),
    ensures
        gone.status.finished(),
        forall|k: int|
            0 <= k < s.limited().jobs.len() && (#[trigger] s.limited().jobs[k]).status.finished()
                ==> !s.limited().jobs[k].end_time().before(gone.end_time()),
{
    if s.max_history != 0 && s.jobs.len() > s.max_history {
        lemma_without_oldest_drops(s.jobs, (s.jobs.len() - s.max_history) as nat, gone);
    }
}

proof fn lemma_remove_job(jobs: Seq<JobView>, i: int, id: u128)
    requires
        distinct_ids(jobs),
        0 <= i < jobs.len(),
    ensures
        distinct_ids(jobs.remove(i)),
        jobs[i].id == id ==> scheduler::position(jobs.remove(i), id) is None,
        jobs[i].id != id ==> {
            let p = scheduler::position(jobs, id);
            let q = scheduler::position(jobs.remove(i), id);
            &&& p is Some <==> q is Some
            &&& p is Some ==> jobs.remove(i)[q->0] == jobs[p->0]
        },
{
    let r = jobs.remove(i);
    assert forall|k: int| 0 <= k < r.len() implies #[trigger] r[k] == jobs[if k < i {
        k
    } else {
        k + 1
    }] by {}
    scheduler::lemma_position(jobs, id);
    scheduler::lemma_position(r, id);
    if jobs[i].id != id && scheduler::position(jobs, id) is Some {
        let p = scheduler::position(jobs, id)->0;
        let q = if p < i { p } else { p - 1 };
        assert(r[q] == jobs[p]);
    }
}

proof fn lemma_without_oldest_job(s: SchedulerView, n: nat, id: u128)
    requires
        distinct_ids(s.jobs),
    ensures
        ({
            let t = SchedulerView { jobs: history::without_oldest(s.jobs, n), ..s };
            t.job(id) == s.job(id) || (t.job(id) is None && s.job(id) is Some
                && s.job(id)->0.status.finished())
        }),
    decreases n,
{
    if n > 0 && exists|i: int| history::is_oldest(s.jobs, i) {
        let i = choose|i: int| history::is_oldest(s.jobs, i);
        let rest = SchedulerView { jobs: s.jobs.remove(i), ..s };
        lemma_remove_job(s.jobs, i, id);
        lemma_without_oldest_job(rest, (n - 1) as nat, id);
        if s.jobs[i].id == id {
            lemma_position_distinct(s.jobs, i);
        }
    }
}

/// What the history keeps of a job is the job as it was; what it drops had finished.
pub proof fn law_evicted_or_unchanged(s: SchedulerView, id: u128)
    requires
        distinct_ids(s.jobs),
    ensures
        s.limited().job(id) == s.job(id) || (s.limited().job(id) is None && s.job(id) is Some
            && s.job(id)->0.status.finished()),
{
    if s.max_history != 0 && s.jobs.len() > s.max_history {
        lemma_without_oldest_job(s, (s.jobs.len() - s.max_history) as nat, id);
    }
}

// Completion.

/// A job whose run came to a result is found with it, unless it has left the history already;
/// every other job is found as before, unless it had finished and has left the history.
pub proof fn law_completed(
    s: SchedulerView,
    id: u128,
    result: RunResultView,
    now: Timestamp,
    other: u128,
)
    requires
        sound(s),
        s.job(id) is Some,
        s.job(id)->0.status is Running,
        other != id,
    ensures
        ({
            let t = s.completed(id, result, now);
            let done = run::completed_job(s.job(id)->0, result, now);
            &&& done.status.finished()
            &&& t.job(id) == Some(done) || t.job(id) is None
            &&& s.max_history == 0 || s.jobs.len() <= s.max_history ==> t.job(id) == Some(done)
            &&& t.job(other) == s.job(other) || (t.job(other) is None && s.job(other) is Some
                && s.job(other)->0.status.finished())
        }),
{
    scheduler::lemma_position(s.jobs, id);
    let p = scheduler::position(s.jobs, id)->0;
    let done = run::completed_job(s.jobs[p], result, now);
    lemma_completed_job_sound(s.jobs[p], result, now);
    lemma_count_update(s.jobs, p, done, JobStatus::Running);
    let counted = SchedulerView { running_count: (s.running_count - 1) as nat, ..s };
    let u = counted.with_job(id, done);
    lemma_with_job(counted, id, done, other);
    assert(u.jobs == s.jobs.update(p, done));
    assert(distinct_ids(u.jobs));
    law_evicted_or_unchanged(u, id);
    law_evicted_or_unchanged(u, other);
    assert(s.completed(id, result, now) == u.limited());
}

/// A job whose life has ended stays as it is: submitting, cancelling and dispatching leave it
/// alone. (What entering the result of another job's run leaves of it, [`law_completed`] says.)
pub proof fn law_finished_stays(
    s: SchedulerView,
    id: u128,
    job: JobView,
    target: u128,
    now: Timestamp,
)
    requires
        sound(s),
        s.job(id) is Some,
        s.job(id)->0.status.finished(),
        s.job(job.id) is None,
    ensures
        s.submitted(job).job(id) == s.job(id),
        s.cancelled(target, now).job(id) == s.job(id),
        s.dispatched(now).job(id) == s.job(id),
{
    law_submitted_is_found(s, job, id);
    if s.job(target) is Some && s.job(target)->0.status is Pending {
        law_cancel(s, target, now, now, id);
    }
    law_dispatch_order(s);
    if s.next() is Some {
        law_dispatched_runs(s, now, id);
    } else {
        lemma_nothing_stale(s);
    }
}

// In plain numbers.

/// The job that is dispatched waits, and no job that waits comes before it: none has a higher
/// priority, and of the same priority none was submitted in an earlier second, or in the same
/// second with fewer nanoseconds.
pub proof fn law_earliest_first(s: SchedulerView, i: int)
    requires
        sound(s),
        s.next() is Some,
        0 <= i < s.jobs.len(),
        s.jobs[i].status == JobStatus::Pending,
    ensures
        ({
            let next = s.job(s.next()->0)->0;
            &&& s.job(s.next()->0) is Some
            &&& next.status == JobStatus::Pending
            &&& s.jobs[i].priority <= next.priority
            &&& s.jobs[i].priority == next.priority ==> {
                ||| s.jobs[i].submitted_at.secs > next.submitted_at.secs
                ||| s.jobs[i].submitted_at.secs == next.submitted_at.secs
                    && s.jobs[i].submitted_at.nanos >= next.submitted_at.nanos
            }
        }),
{
    law_dispatch_order(s);
    assert(s.jobs[i].status is Pending);
}

/// Some job is dispatched whenever one waits and fewer run than may.
pub proof fn law_work_is_dispatched(s: SchedulerView, i: int)
    requires
        sound(s),
        0 <= i < s.jobs.len(),
        s.jobs[i].status == JobStatus::Pending,
        s.jobs.filter(|j: JobView| j.status == JobStatus::Running).len() < s.concurrency_limit,
    ensures
        s.next() is Some,
{
    api::law_count(s.jobs, |j: JobView| j.status == JobStatus::Running, JobStatus::Running);
    law_dispatch_order(s);
    assert(s.jobs[i].status is Pending);
}

/// Never do more jobs run than may: as many as are counted, before and after a dispatch.
pub proof fn law_concurrency(s: SchedulerView, now: Timestamp)
    requires
        sound(s),
    ensures
        s.jobs.filter(|j: JobView| j.status == JobStatus::Running).len() == s.running_count,
        s.jobs.filter(|j: JobView| j.status == JobStatus::Running).len() <= s.concurrency_limit,
        s.dispatched(now).jobs.filter(|j: JobView| j.status == JobStatus::Running).len()
            <= s.concurrency_limit,
{
    law_dispatch_sound(s, now);
    api::law_count(s.jobs, |j: JobView| j.status == JobStatus::Running, JobStatus::Running);
    api::law_count(
        s.dispatched(now).jobs,
        |j: JobView| j.status == JobStatus::Running,
        JobStatus::Running,
    );
}

/// What was asked for is what runs: a job that was submitted under a fresh identifier and then
/// dispatched has the request's name and command and its time limit, and runs since the dispatch.
pub proof fn law_request_is_run(
    s: SchedulerView,
    req: SubmitRequest,
    id: u128,
    submitted: Timestamp,
    now: Timestamp,
)
    requires
        sound(s),
        s.job(id) is None,
        s.submitted(api::requested_job(req, id, submitted)).next() == Some(id),
    ensures
        ({
            let t = s.submitted(api::requested_job(req, id, submitted)).dispatched(now);
            &&& t.job(id) is Some
            &&& t.job(id)->0.name == req.name@
            &&& t.job(id)->0.command == req.command@
            &&& t.job(id)->0.status == JobStatus::Running
            &&& t.job(id)->0.submitted_at == submitted
            &&& t.job(id)->0.started_at == Some(now)
            &&& 1 <= req.timeout_secs <= 3600 ==> t.job(id)->0.timeout_secs == req.timeout_secs
            &&& req.priority <= 9 ==> t.job(id)->0.priority == req.priority
        }),
{
    let job = api::requested_job(req, id, submitted);
    let other = if id == 0 {
        1u128
    } else {
        0u128
    };
    law_submit_sound(s, req, id, submitted);
    law_submitted_is_found(s, job, other);
    law_dispatched_runs(s.submitted(job), now, other);
}

/// Of two jobs submitted one after the other with the same priority, where nothing else waits and
/// nothing runs, the one that was submitted in the earlier second is dispatched first.
pub proof fn law_first_come_first_served(
    s: SchedulerView,
    first: SubmitRequest,
    second: SubmitRequest,
    a: u128,
    b: u128,
    early: Timestamp,
    late: Timestamp,
)
    requires
        sound(s),
        s.queue.len() == 0,
        s.running_count < s.concurrency_limit,
        s.job(a) is None,
        s.job(b) is None,
        a != b,
        first.priority == second.priority,
        early.secs < late.secs || (early.secs == late.secs && early.nanos < late.nanos),
    ensures
        s.submitted(api::requested_job(first, a, early)).submitted(
            api::requested_job(second, b, late),
        ).next() == Some(a),
{
    let job_a = api::requested_job(first, a, early);
    let job_b = api::requested_job(second, b, late);
    let t = s.submitted(job_a);
    let u = t.submitted(job_b);
    law_submit_sound(s, first, a, early);
    law_submitted_is_found(s, job_a, b);
    law_submit_sound(t, second, b, late);
    let p = queue::law_with_entry(s.queue, job_a.entry());
    assert(t.queue == seq![job_a.entry()]);
    let q = queue::law_with_entry(t.queue, job_b.entry());
    assert(!(0 < q)) by {
        assert(t.queue[0] == job_a.entry());
    }
    assert(u.queue == seq![job_b.entry(), job_a.entry()]);
    lemma_nothing_stale(u);
}

/// Of two jobs submitted one after the other, in either order, where nothing else waits and nothing
/// runs, the one with the higher priority is dispatched first.
pub proof fn law_higher_priority_first(
    s: SchedulerView,
    first: SubmitRequest,
    second: SubmitRequest,
    a: u128,
    b: u128,
    early: Timestamp,
    late: Timestamp,
)
    requires
        sound(s),
        s.queue.len() == 0,
        s.running_count < s.concurrency_limit,
        s.job(a) is None,
        s.job(b) is None,
        a != b,
        first.priority <= 9,
        second.priority <= 9,
        first.priority != second.priority,
    ensures
        s.submitted(api::requested_job(first, a, early)).submitted(
            api::requested_job(second, b, late),
        ).next() == if first.priority > second.priority {
            Some(a)
        } else {
            Some(b)
        },
{
    let job_a = api::requested_job(first, a, early);
    let job_b = api::requested_job(second, b, late);
    let t = s.submitted(job_a);
    let u = t.submitted(job_b);
    law_submit_sound(s, first, a, early);
    law_submitted_is_found(s, job_a, b);
    law_submit_sound(t, second, b, late);
    let p = queue::law_with_entry(s.queue, job_a.entry());
    assert(t.queue == seq![job_a.entry()]);
    let q = queue::law_with_entry(t.queue, job_b.entry());
    assert(t.queue[0] == job_a.entry());
    assert(u.queue == if first.priority > second.priority {
        seq![job_b.entry(), job_a.entry()]
    } else {
        seq![job_a.entry(), job_b.entry()]
    });
    lemma_nothing_stale(u);
}

/// A job that leaves the history was completed no later than any finished job that stays, whenever
/// the two were submitted and started.
pub proof fn law_evicts_longest_completed(
    s: SchedulerView,
    gone: JobView,
    k: int,
    t: Timestamp,
    u: Timestamp,
)
    requires
        s.jobs.to_multiset().sub(s.limited().jobs.to_multiset()).contains(gone),
        gone.completed_at == Some(t),
        0 <= k < s.limited().jobs.len(),
        s.limited().jobs[k].status != JobStatus::Pending,
        s.limited().jobs[k].status != JobStatus::Running,
        s.limited().jobs[k].completed_at == Some(u),
    ensures
        gone.status != JobStatus::Pending,
        gone.status != JobStatus::Running,
        t.secs < u.secs || (t.secs == u.secs && t.nanos <= u.nanos),
{
    assert(dropped(s.jobs, s.limited().jobs) == s.jobs.to_multiset().sub(
        s.limited().jobs.to_multiset(),
    ));
    law_evicts_oldest(s, gone);
    assert(s.limited().jobs[k].status.finished());
}

/// Of two finished jobs, the one that was completed later stays in the history wherever the one
/// that was completed earlier does.
pub proof fn law_later_completed_stays(
    jobs: Seq<JobView>,
    i: int,
    j: int,
    t: Timestamp,
    u: Timestamp,
    max_history: nat,
)
    requires
        0 <= i < jobs.len(),
        0 <= j < jobs.len(),
        distinct_ids(jobs),
        jobs[i].status != JobStatus::Pending && jobs[i].status != JobStatus::Running,
        jobs[j].status != JobStatus::Pending && jobs[j].status != JobStatus::Running,
        jobs[i].completed_at == Some(t),
        jobs[j].completed_at == Some(u),
        t.secs < u.secs || (t.secs == u.secs && t.nanos < u.nanos),
        history::limited(jobs, max_history).contains(jobs[i]),
    ensures
        history::limited(jobs, max_history).contains(jobs[j]),
{
    let r = history::limited(jobs, max_history);
    let kept = history::law_limited(jobs, max_history);
    let a = choose|a: int| 0 <= a < r.len() && r[a] == jobs[i];
    assert(r[a] == jobs[kept[a]]);
    assert(kept[a] == i) by {
        if kept[a] < i {
            assert(jobs[kept[a]].id != jobs[i].id);
        } else if i < kept[a] {
            assert(jobs[i].id != jobs[kept[a]].id);
        }
    }
    if kept.contains(j) {
        let b = choose|b: int| 0 <= b < kept.len() && kept[b] == j;
        assert(r[b] == jobs[kept[b]]);
    } else {
        assert(jobs[j].status != JobStatus::Pending);
        assert(jobs[kept[a]].completed_at == Some(t));
    }
}

/// Submitting a job raises the number of those that wait, and the total, by one, and leaves the
/// other numbers alone.
pub proof fn law_stats_of_submission(
    s: SchedulerView,
    req: SubmitRequest,
    id: u128,
    now: Timestamp,
    before: QueueStats,
    after: QueueStats,
)
    requires
        api::counts(before, s.jobs),
        api::counts(after, s.submitted(api::requested_job(req, id, now)).jobs),
    ensures
        after.pending == before.pending + 1,
        after.running == before.running,
        after.completed == before.completed,
        after.failed == before.failed,
        after.cancelled == before.cancelled,
        after.timed_out == before.timed_out,
        after.total == before.total + 1,
{
    assert(s.submitted(api::requested_job(req, id, now)).jobs.drop_last() == s.jobs);
}

/// Cancelling a job that waits makes one waiting job fewer and one cancelled job more.
pub proof fn law_stats_of_cancellation(
    s: SchedulerView,
    id: u128,
    now: Timestamp,
    before: QueueStats,
    after: QueueStats,
)
    requires
        s.job(id) is Some,
        s.job(id)->0.status == JobStatus::Pending,
        api::counts(before, s.jobs),
        api::counts(after, s.cancelled(id, now).jobs),
    ensures
        after.pending == before.pending - 1,
        after.running == before.running,
        after.completed == before.completed,
        after.failed == before.failed,
        after.cancelled == before.cancelled + 1,
        after.timed_out == before.timed_out,
        after.total == before.total,
{
    scheduler::lemma_position(s.jobs, id);
    let p = scheduler::position(s.jobs, id)->0;
    lemma_counts_update(s.jobs, p, s.cancelled(id, now).jobs[p]);
}

/// Dispatching a job makes one waiting job fewer and one running job more.
pub proof fn law_stats_of_dispatch(
    s: SchedulerView,
    now: Timestamp,
    before: QueueStats,
    after: QueueStats,
)
    requires
        sound(s),
        s.next() is Some,
        api::counts(before, s.jobs),
        api::counts(after, s.dispatched(now).jobs),
    ensures
        after.pending == before.pending - 1,
        after.running == before.running + 1,
        after.completed == before.completed,
        after.failed == before.failed,
        after.cancelled == before.cancelled,
        after.timed_out == before.timed_out,
        after.total == before.total,
{
    law_dispatch_order(s);
    let id = s.next()->0;
    scheduler::lemma_position(s.jobs, id);
    let p = scheduler::position(s.jobs, id)->0;
    lemma_counts_update(s.jobs, p, s.dispatched(now).jobs[p]);
}

/// Entering what a running job came to makes one running job fewer and, where the history has room
/// for all jobs, one more of its kind: a completed job for a process that ended with 0, a failed
/// one for any other code and for a process that could not be run, and a timed-out one for a
/// process that took too long.
pub proof fn law_stats_of_result(
    s: SchedulerView,
    id: u128,
    outcome: RunOutcome,
    timeout_secs: u64,
    now: Timestamp,
    before: QueueStats,
    after: QueueStats,
)
    requires
        s.job(id) is Some,
        s.job(id)->0.status == JobStatus::Running,
        s.max_history == 0 || s.jobs.len() <= s.max_history,
        api::counts(before, s.jobs),
        api::counts(after, s.completed(id, run::result_of(outcome, timeout_secs), now).jobs),
    ensures
        after.pending == before.pending,
        after.running == before.running - 1,
        after.cancelled == before.cancelled,
        after.total == before.total,
        match outcome {
            RunOutcome::Exited { code, .. } => if code == Some(0i32) {
                &&& after.completed == before.completed + 1
                &&& after.failed == before.failed
                &&& after.timed_out == before.timed_out
            } else {
                &&& after.completed == before.completed
                &&& after.failed == before.failed + 1
                &&& after.timed_out == before.timed_out
            },
            RunOutcome::TimedOut { .. } => {
                &&& after.completed == before.completed
                &&& after.failed == before.failed
                &&& after.timed_out == before.timed_out + 1
            },
            _ => {
                &&& after.completed == before.completed
                &&& after.failed == before.failed + 1
                &&& after.timed_out == before.timed_out
            },
        },
{
    scheduler::lemma_position(s.jobs, id);
    let p = scheduler::position(s.jobs, id)->0;
    let result = run::result_of(outcome, timeout_secs);
    lemma_counts_update(s.jobs, p, run::completed_job(s.jobs[p], result, now));
    scheduler::law_result_entered(s, p, id, result, now);
}

/// How the counts change when a job takes the place of another.
proof fn lemma_counts_update(jobs: Seq<JobView>, i: int, job: JobView)
    requires
        0 <= i < jobs.len(),
    ensures
        forall|status: JobStatus| #[trigger]
            api::count(jobs.update(i, job), status) == api::count(jobs, status) - (if jobs[i].status
                == status {
                1int
            } else {
                0int
            }) + (if job.status == status {
                1int
            } else {
                0int
            }),
{
    assert forall|status: JobStatus| #[trigger]
        api::count(jobs.update(i, job), status) == api::count(jobs, status) - (if jobs[i].status
            == status {
            1int
        } else {
            0int
        }) + (if job.status == status {
            1int
        } else {
            0int
        }) by {
        lemma_count_update(jobs, i, job, status);
    }
}

} // verus!
