//! What the functions promise to those who call them, told by what they are given and what they
//! give back.

use core::cmp::Ordering;
use vstd::prelude::*;
use vstd::utf8::*;
use crate::api;
use crate::api::{
    CancelResponse, ErrorResponse, HealthResponse, QueueStats, StatusResponse, SubmitRequest,
    SubmitResponse,
};
use crate::capture;
use crate::capture::Capture;
use crate::client;
use crate::client::Exchange;
use crate::history;
use crate::job::{Job, JobStatus, JobView, PendingJob};
use crate::job_id;
use crate::npu;
use crate::npu::{NpuProbe, NpuStatus};
use crate::output;
use crate::queue;
use crate::queue::PendingQueue;
use crate::report;
use crate::run;
use crate::run::{RunOutcome, RunResult};
use crate::scheduler;
use crate::scheduler::SchedulerInner;
use crate::supervise;
use crate::supervise::{RunAction, RunEvent, RunState};
use crate::text;
use crate::time;
use crate::time::Timestamp;
use crate::url;
use crate::url::Url;

verus! {

// Time.

/// [`Timestamp::is_before`] compares seconds, and nanoseconds within a second.
pub proof fn promise_is_before(a: Timestamp, b: Timestamp, res: bool)
    requires
        call_ensures(Timestamp::is_before, (&a, &b), res),
    ensures
        res <==> a.secs < b.secs || (a.secs == b.secs && a.nanos < b.nanos),
{
    time::law_time_order(a, b);
    time::law_time_order(b, a);
}

/// [`Timestamp::is_valid`] accepts every ordinary second of the years that are covered.
pub proof fn promise_is_valid(t: Timestamp, res: bool)
    requires
        call_ensures(Timestamp::is_valid, (&t,), res),
    ensures
        res <==> -8_334_601_228_800 <= t.secs <= 8_210_266_876_799 && (t.nanos < 1_000_000_000 || (
        t.nanos < 2_000_000_000 && (t.secs as int) % 60 == 59)),
{
    time::law_valid_times(t);
}

// Jobs.

/// [`JobStatus::is_finished`] holds of the four statuses in which a job's life has ended.
pub proof fn promise_is_finished(status: JobStatus, res: bool)
    requires
        call_ensures(JobStatus::is_finished, (&status,), res),
    ensures
        res <==> status == JobStatus::Completed || status == JobStatus::Failed || status
            == JobStatus::Cancelled || status == JobStatus::TimedOut,
{
}

/// [`Job::end_time`] is when the job was completed, or else when it was submitted.
pub proof fn promise_end_time(job: Job, res: Timestamp)
    requires
        call_ensures(Job::end_time, (&job,), res),
    ensures
        job.completed_at is Some ==> res == job.completed_at->0,
        job.completed_at is None ==> res == job.submitted_at,
{
}

/// A cloned job is the same in every field.
pub proof fn promise_clone(job: Job, res: Job)
    requires
        call_ensures(Job::clone, (&job,), res),
    ensures
        res.id == job.id,
        res.name@ == job.name@,
        res.command@ == job.command@,
        res.priority == job.priority,
        res.status == job.status,
        res.exit_code == job.exit_code,
        res.stdout is Some <==> job.stdout is Some,
        res.stdout is Some ==> res.stdout->0@ == job.stdout->0@,
        res.stderr is Some <==> job.stderr is Some,
        res.stderr is Some ==> res.stderr->0@ == job.stderr->0@,
        res.submitted_at == job.submitted_at,
        res.started_at == job.started_at,
        res.completed_at == job.completed_at,
        res.timeout_secs == job.timeout_secs,
{
    assert(res@ == job@);
}

/// [`PendingJob::is_below`] ranks by priority and, within a priority, by the time of submission.
pub proof fn promise_is_below(a: PendingJob, b: PendingJob, res: bool)
    requires
        call_ensures(PendingJob::is_below, (&a, &b), res),
    ensures
        res <==> a.priority < b.priority || (a.priority == b.priority && (a.submitted_at.secs
            > b.submitted_at.secs || (a.submitted_at.secs == b.submitted_at.secs
            && a.submitted_at.nanos > b.submitted_at.nanos))),
{
}

// The queue.

/// [`PendingQueue::push`] puts an entry behind those of a lower priority and those of the same
/// priority that were submitted later, and before all others.
pub proof fn promise_push(q: &mut PendingQueue, entry: PendingJob, res: ()) -> (p: int)
    requires
        queue::ascending(old(q)@),
        call_ensures(PendingQueue::push, (q, entry), res),
    ensures
        0 <= p <= old(q)@.len(),
        final(q)@ == old(q)@.take(p) + seq![entry] + old(q)@.skip(p),
        forall|i: int|
            0 <= i < old(q)@.len() ==> (i < p <==> (#[trigger] old(q)@[i]).priority < entry.priority
                || (old(q)@[i].priority == entry.priority && (old(q)@[i].submitted_at.secs
                > entry.submitted_at.secs || (old(q)@[i].submitted_at.secs == entry.submitted_at.secs
                && old(q)@[i].submitted_at.nanos > entry.submitted_at.nanos)))),
{
    queue::law_with_entry(old(q)@, entry)
}

/// [`PendingQueue::pop`] gives an entry than which none has a higher priority, nor the same and an
/// earlier submission, and leaves the others as they are.
pub proof fn promise_pop(q: &mut PendingQueue, res: Option<PendingJob>)
    requires
        queue::ascending(old(q)@),
        call_ensures(PendingQueue::pop, (q,), res),
    ensures
        old(q)@.len() == 0 ==> res is None && final(q)@.len() == 0,
        old(q)@.len() > 0 ==> {
            &&& res is Some
            &&& old(q)@ == final(q)@.push(res->0)
            &&& forall|i: int|
                0 <= i < old(q)@.len() ==> {
                    ||| (#[trigger] old(q)@[i]).priority < res->0.priority
                    ||| old(q)@[i].priority == res->0.priority && (old(q)@[i].submitted_at.secs
                        > res->0.submitted_at.secs || (old(q)@[i].submitted_at.secs
                        == res->0.submitted_at.secs && old(q)@[i].submitted_at.nanos
                        >= res->0.submitted_at.nanos))
                }
        },
{
    queue::law_ascending(old(q)@);
    if old(q)@.len() > 0 {
        let last = old(q)@.len() - 1;
        assert(old(q)@ == old(q)@.drop_last().push(old(q)@[last]));
    }
}

/// [`PendingQueue::remove_job`] takes out the entries under an identifier and no others.
pub proof fn promise_remove_job(q: &mut PendingQueue, id: u128, res: ())
    requires
        call_ensures(PendingQueue::remove_job, (q, id), res),
    ensures
        final(q)@ == old(q)@.filter(|e: PendingJob| e.id != id),
{
}

// The history.

/// [`history::limit_history`] keeps the jobs at the places that are given back, in their order. The
/// others have finished, each no later than any finished job that stays.
pub proof fn promise_limit_history(jobs: &mut Vec<Job>, max_history: usize, res: ()) -> (kept: Seq<
    int,
>)
    requires
        call_ensures(history::limit_history, (jobs, max_history), res),
    ensures
        kept.len() == final(jobs)@.len(),
        forall|k: int|
            0 <= k < kept.len() ==> 0 <= #[trigger] kept[k] < old(jobs)@.len() && final(jobs)@[k]@
                == old(jobs)@[kept[k]]@,
        forall|k: int, l: int| 0 <= k < l < kept.len() ==> #[trigger] kept[k] < #[trigger] kept[l],
        max_history == 0 || old(jobs)@.len() <= max_history ==> kept.len() == old(jobs)@.len(),
        max_history > 0 && old(jobs)@.len() > max_history ==> kept.len() >= max_history && (
        kept.len() > max_history ==> forall|k: int|
            0 <= k < kept.len() ==> {
                ||| old(jobs)@[#[trigger] kept[k]].status == JobStatus::Pending
                ||| old(jobs)@[kept[k]].status == JobStatus::Running
            }),
        forall|i: int|
            0 <= i < old(jobs)@.len() && !kept.contains(i) ==> (#[trigger] old(jobs)@[i]).status
                != JobStatus::Pending && old(jobs)@[i].status != JobStatus::Running,
        forall|i: int, k: int, t: Timestamp, u: Timestamp|
            0 <= i < old(jobs)@.len() && !kept.contains(i) && 0 <= k < kept.len()
                && old(jobs)@[kept[k]].status != JobStatus::Pending && old(jobs)@[kept[k]].status
                != JobStatus::Running && #[trigger] same_time(old(jobs)@[i].completed_at, t)
                && #[trigger] same_time(old(jobs)@[kept[k]].completed_at, u) ==> t.secs < u.secs || (
            t.secs == u.secs && t.nanos <= u.nanos),
{
    let vs = history::values(old(jobs)@);
    let kept = history::law_limited(vs, max_history as nat);
    assert(history::values(final(jobs)@).len() == final(jobs)@.len());
    assert forall|k: int| 0 <= k < kept.len() implies 0 <= #[trigger] kept[k] < old(jobs)@.len()
        && final(jobs)@[k]@ == old(jobs)@[kept[k]]@ by {
        assert(history::values(final(jobs)@)[k] == final(jobs)@[k]@);
        assert(vs[kept[k]] == old(jobs)@[kept[k]]@);
    }
    assert(forall|i: int| 0 <= i < vs.len() ==> #[trigger] vs[i] == old(jobs)@[i]@);
    if max_history > 0 && old(jobs)@.len() > max_history && kept.len() > max_history {
        assert forall|k: int| 0 <= k < kept.len() implies {
            ||| old(jobs)@[#[trigger] kept[k]].status == JobStatus::Pending
            ||| old(jobs)@[kept[k]].status == JobStatus::Running
        } by {
            assert(vs[kept[k]] == old(jobs)@[kept[k]]@);
        }
    }
    assert forall|i: int| 0 <= i < old(jobs)@.len() && !kept.contains(i) implies (
    #[trigger] old(jobs)@[i]).status != JobStatus::Pending && old(jobs)@[i].status
        != JobStatus::Running by {
        assert(vs[i] == old(jobs)@[i]@);
    }
    assert forall|i: int, k: int, t: Timestamp, u: Timestamp|
        0 <= i < old(jobs)@.len() && !kept.contains(i) && 0 <= k < kept.len()
            && old(jobs)@[kept[k]].status != JobStatus::Pending && old(jobs)@[kept[k]].status
            != JobStatus::Running && #[trigger] same_time(old(jobs)@[i].completed_at, t)
            && #[trigger] same_time(old(jobs)@[kept[k]].completed_at, u) implies t.secs < u.secs || (
    t.secs == u.secs && t.nanos <= u.nanos) by {
        assert(vs[i] == old(jobs)@[i]@);
        assert(vs[kept[k]] == old(jobs)@[kept[k]]@);
    }
    kept
}

/// Whether an optional time is a given one.
pub open spec fn same_time(at: Option<Timestamp>, t: Timestamp) -> bool {
    at == Some(t)
}

// The scheduler.

/// [`SchedulerInner::new`] keeps the limits that it is given, and starts with nothing.
pub proof fn promise_new(concurrency_limit: usize, max_history: usize, res: SchedulerInner)
    requires
        call_ensures(SchedulerInner::new, (concurrency_limit, max_history), res),
    ensures
        res.jobs@.len() == 0,
        res.queue@.len() == 0,
        res.running_count == 0,
        res.concurrency_limit == concurrency_limit,
        res.max_history == max_history,
{
    assert(history::values(res.jobs@).len() == res.jobs@.len());
    assert(res@.running_count == 0);
}

/// [`SchedulerInner::launch`] hands out the command and the time limit of the first job with the
/// identifier, and nothing where there is none.
pub proof fn promise_launch(s: SchedulerInner, id: u128, res: Option<(String, u64)>)
    requires
        call_ensures(SchedulerInner::launch, (&s, id), res),
    ensures
        match res {
            Some(r) => exists|i: int|
                {
                    &&& 0 <= i < s.jobs@.len()
                    &&& (#[trigger] s.jobs@[i]).id == id
                    &&& r.0@ == s.jobs@[i].command@
                    &&& r.1 == s.jobs@[i].timeout_secs
                    &&& forall|j: int| 0 <= j < i ==> (#[trigger] s.jobs@[j]).id != id
                },
            None => forall|j: int| 0 <= j < s.jobs@.len() ==> (#[trigger] s.jobs@[j]).id != id,
        },
{
    scheduler::lemma_position(s@.jobs, id);
    assert forall|j: int| 0 <= j < s.jobs@.len() implies (#[trigger] s.jobs@[j]).id == s@.jobs[j].id by {}
    if res is Some {
        let i = scheduler::position(s@.jobs, id)->0;
        assert(s@.jobs[i] == s.jobs@[i]@);
        assert(s.jobs@[i].id == id);
    }
}

/// [`SchedulerInner::next_job`] gives no job while as many run as may. Else it takes entries from
/// the top of the queue down to the first under whose identifier a job waits, and gives that one.
pub proof fn promise_next_job(s: &mut SchedulerInner, res: Option<u128>) -> (k: int)
    requires
        call_ensures(SchedulerInner::next_job, (s,), res),
    ensures
        old(s).running_count >= old(s).concurrency_limit ==> res is None && final(s)@ == old(s)@,
        old(s).running_count < old(s).concurrency_limit ==> {
            &&& -1 <= k < old(s)@.queue.len()
            &&& k < 0 ==> res is None && final(s)@.queue.len() == 0
            &&& k >= 0 ==> res == Some(old(s)@.queue[k].id) && final(s)@.queue
                == old(s)@.queue.take(k) && exists|i: int|
                0 <= i < old(s)@.jobs.len() && (#[trigger] old(s)@.jobs[i]).id
                    == old(s)@.queue[k].id && old(s)@.jobs[i].status == JobStatus::Pending
            &&& forall|l: int, i: int|
                k < l < old(s)@.queue.len() && 0 <= i < old(s)@.jobs.len() && (
                #[trigger] old(s)@.jobs[i]).id == (#[trigger] old(s)@.queue[l]).id
                    ==> old(s)@.jobs[i].status != JobStatus::Pending
        },
        final(s)@.jobs == old(s)@.jobs,
        final(s)@.running_count == old(s)@.running_count,
{
    scheduler::law_next(old(s)@)
}

/// [`SchedulerInner::dispatch`] gives the job that is next and marks it as running.
pub proof fn promise_dispatch(s: &mut SchedulerInner, i: int, res: Option<u128>)
    requires
        call_ensures(SchedulerInner::dispatch, (s,), res),
    ensures
        res == old(s)@.next(),
        res is None ==> final(s)@.jobs == old(s)@.jobs && final(s)@.running_count
            == old(s)@.running_count,
        res is Some && 0 <= i < old(s)@.jobs.len() && old(s)@.jobs[i].id == res->0 && (forall|j: int|
            0 <= j < i ==> (#[trigger] old(s)@.jobs[j]).id != res->0) ==> {
            &&& final(s)@.running_count == old(s)@.running_count + 1
            &&& final(s)@.jobs.len() == old(s)@.jobs.len()
            &&& final(s)@.jobs[i].status == JobStatus::Running
            &&& final(s)@.jobs[i].started_at is Some
            &&& final(s)@.jobs[i].command == old(s)@.jobs[i].command
            &&& final(s)@.jobs[i].timeout_secs == old(s)@.jobs[i].timeout_secs
            &&& forall|j: int|
                0 <= j < old(s)@.jobs.len() && j != i ==> #[trigger] final(s)@.jobs[j]
                    == old(s)@.jobs[j]
        },
{
    let now = choose|now: Timestamp|
        now.valid() && final(s)@ == #[trigger] old(s)@.dispatched(now);
    scheduler::law_dispatched(old(s)@, i, now);
    let _ = scheduler::law_next(old(s)@);
}

/// [`SchedulerInner::finish_job`] enters what the run of the first job with the identifier came to.
/// Where the history has room, a process that ended by itself leaves its code, and the job is
/// completed exactly if that is 0; one that took too long leaves the job timed out; and in any
/// other case it has failed. The other jobs stay, and one job fewer is counted as running.
pub proof fn promise_finish_job(
    s: &mut SchedulerInner,
    i: int,
    id: u128,
    outcome: RunOutcome,
    timeout_secs: u64,
    res: (),
)
    requires
        call_ensures(SchedulerInner::finish_job, (s, id, outcome, timeout_secs), res),
        0 <= i < old(s)@.jobs.len(),
        old(s)@.jobs[i].id == id,
        forall|j: int| 0 <= j < i ==> (#[trigger] old(s)@.jobs[j]).id != id,
    ensures
        old(s)@.running_count > 0 ==> final(s)@.running_count == old(s)@.running_count - 1,
        final(s)@.queue == old(s)@.queue,
        old(s)@.max_history == 0 || old(s)@.jobs.len() <= old(s)@.max_history ==> {
            let done = final(s)@.jobs[i];
            &&& final(s)@.jobs.len() == old(s)@.jobs.len()
            &&& forall|j: int|
                0 <= j < old(s)@.jobs.len() && j != i ==> #[trigger] final(s)@.jobs[j]
                    == old(s)@.jobs[j]
            &&& done.completed_at is Some
            &&& done.id == id && done.name == old(s)@.jobs[i].name && done.command
                == old(s)@.jobs[i].command
            &&& match outcome {
                RunOutcome::Exited { code, stdout, stderr } => {
                    &&& code is Some ==> done.exit_code == code
                    &&& code is None ==> done.exit_code == Some(-1i32)
                    &&& done.status == if code == Some(0i32) {
                        JobStatus::Completed
                    } else {
                        JobStatus::Failed
                    }
                    &&& encode_utf8(stdout@).len() <= 1_048_576 ==> done.stdout == Some(stdout@)
                    &&& encode_utf8(stderr@).len() <= 1_048_576 ==> done.stderr == Some(stderr@)
                },
                RunOutcome::TimedOut { stdout, stderr } => {
                    &&& done.status == JobStatus::TimedOut
                    &&& encode_utf8(stdout@).len() <= 1_048_576 ==> done.stdout == Some(stdout@)
                    &&& done.stderr is Some
                    &&& done.exit_code == old(s)@.jobs[i].exit_code
                },
                _ => {
                    &&& done.status == JobStatus::Failed
                    &&& done.stderr is Some
                    &&& done.exit_code == old(s)@.jobs[i].exit_code
                    &&& done.stdout == old(s)@.jobs[i].stdout
                },
            }
        },
{
    let now = choose|now: Timestamp|
        now.valid() && final(s)@ == #[trigger] old(s)@.completed(
            id,
            run::result_of(outcome, timeout_secs),
            now,
        );
    let result = run::result_of(outcome, timeout_secs);
    scheduler::law_result_entered(old(s)@, i, id, result, now);
    let updated = old(s)@.jobs.update(i, run::completed_job(old(s)@.jobs[i], result, now));
    let _ = history::law_limited(updated, old(s)@.max_history);
    match outcome {
        RunOutcome::Exited { code, stdout, stderr } => {
            let _ = output::law_output_cut(stdout@, 1_048_576);
            let _ = output::law_output_cut(stderr@, 1_048_576);
        },
        RunOutcome::TimedOut { stdout, stderr } => {
            let _ = output::law_output_cut(stdout@, 1_048_576);
        },
        _ => {},
    }
}

/// [`SchedulerInner::cancel_at`] tells the status that the first job with the identifier had, and
/// cancels it where that shows that it waited.
pub proof fn promise_cancel_at(
    s: &mut SchedulerInner,
    i: int,
    id: u128,
    now: Timestamp,
    res: Option<JobStatus>,
)
    requires
        call_ensures(SchedulerInner::cancel_at, (s, id, now), res),
        0 <= i < old(s)@.jobs.len(),
        old(s)@.jobs[i].id == id,
        forall|j: int| 0 <= j < i ==> (#[trigger] old(s)@.jobs[j]).id != id,
    ensures
        res == Some(old(s)@.jobs[i].status),
        old(s)@.jobs[i].status != JobStatus::Pending ==> final(s)@ == old(s)@,
        old(s)@.jobs[i].status == JobStatus::Pending ==> {
            &&& final(s)@.jobs == old(s)@.jobs.update(
                i,
                JobView { status: JobStatus::Cancelled, completed_at: Some(now), ..old(s)@.jobs[i] },
            )
            &&& final(s)@.queue == old(s)@.queue.filter(|e: PendingJob| e.id != id)
            &&& final(s)@.running_count == old(s)@.running_count
        },
{
    scheduler::law_cancelled(old(s)@, i, id, now);
    scheduler::lemma_position_is(old(s)@.jobs, id, i);
}

// Requests.

/// [`api::submit_at`] stores what the request asks for: its name and its command as they are, and
/// its priority and time limit within bounds. The reply names the job.
pub proof fn promise_submit_at(
    s: &mut SchedulerInner,
    req: SubmitRequest,
    id: u128,
    now: Timestamp,
    res: (u16, SubmitResponse),
)
    requires
        call_ensures(api::submit_at, (s, req, id, now), res),
    ensures
        ({
            let n = old(s)@.jobs.len() as int;
            let job = final(s)@.jobs[n];
            &&& final(s)@.jobs.len() == n + 1
            &&& final(s)@.jobs.take(n) == old(s)@.jobs
            &&& job.id == id
            &&& job.name == req.name@
            &&& job.command == req.command@
            &&& job.priority == if req.priority > 9 {
                9
            } else {
                req.priority
            }
            &&& job.timeout_secs == if req.timeout_secs == 0 {
                300
            } else if req.timeout_secs > 3600 {
                3600
            } else {
                req.timeout_secs
            }
            &&& job.status == JobStatus::Pending
            &&& job.submitted_at == now
            &&& final(s)@.running_count == old(s)@.running_count
            &&& res.0 == 201
            &&& res.1.id == id
            &&& res.1.timeout_secs == job.timeout_secs
            &&& res.1.message@ == "Job submitted"@
        }),
{
    assert(final(s)@.jobs.take(old(s)@.jobs.len() as int) == old(s)@.jobs);
}

/// [`api::submit_handler`] does the same under a random identifier, which the reply names.
pub proof fn promise_submit_handler(
    s: &mut SchedulerInner,
    req: SubmitRequest,
    res: (u16, SubmitResponse),
)
    requires
        call_ensures(api::submit_handler, (s, req), res),
    ensures
        ({
            let n = old(s)@.jobs.len() as int;
            let job = final(s)@.jobs[n];
            &&& final(s)@.jobs.len() == n + 1
            &&& final(s)@.jobs.take(n) == old(s)@.jobs
            &&& job.id == res.1.id
            &&& job.name == req.name@
            &&& job.command == req.command@
            &&& req.priority <= 9 ==> job.priority == req.priority
            &&& 1 <= req.timeout_secs <= 3600 ==> job.timeout_secs == req.timeout_secs
            &&& job.status == JobStatus::Pending
            &&& res.0 == 201
            &&& res.1.timeout_secs == job.timeout_secs
            &&& res.1.message@ == "Job submitted"@
            &&& job_id::is_random_uuid(res.1.id)
        }),
{
    let (id, now) = choose|id: u128, now: Timestamp|
        {
            &&& job_id::is_random_uuid(id)
            &&& now.valid()
            &&& final(s)@ == old(s)@.submitted(#[trigger] api::requested_job(req, id, now))
            &&& api::created(res, api::requested_job(req, id, now))
        };
    assert(api::created(res, api::requested_job(req, id, now)));
    assert(final(s)@.jobs.take(old(s)@.jobs.len() as int) == old(s)@.jobs);
}

/// [`api::status_handler`] gives the number of jobs of each status under its own name.
pub proof fn promise_status_handler(s: SchedulerInner, npu: NpuStatus, res: StatusResponse)
    requires
        call_ensures(api::status_handler, (&s, npu), res),
    ensures
        res.npu == npu,
        res.queue.pending == s@.jobs.filter(|j: JobView| j.status == JobStatus::Pending).len(),
        res.queue.running == s@.jobs.filter(|j: JobView| j.status == JobStatus::Running).len(),
        res.queue.completed == s@.jobs.filter(|j: JobView| j.status == JobStatus::Completed).len(),
        res.queue.failed == s@.jobs.filter(|j: JobView| j.status == JobStatus::Failed).len(),
        res.queue.cancelled == s@.jobs.filter(|j: JobView| j.status == JobStatus::Cancelled).len(),
        res.queue.timed_out == s@.jobs.filter(|j: JobView| j.status == JobStatus::TimedOut).len(),
        res.queue.total == s.jobs@.len(),
{
    api::law_counts(res.queue, s@.jobs);
}

/// [`api::list_jobs_handler`] gives all jobs in their order.
pub proof fn promise_list_jobs(s: SchedulerInner, res: Vec<Job>)
    requires
        call_ensures(api::list_jobs_handler, (&s,), res),
    ensures
        res@.len() == s.jobs@.len(),
        forall|i: int| 0 <= i < res@.len() ==> (#[trigger] res@[i])@ == s.jobs@[i]@,
{
    assert(history::values(res@).len() == res@.len());
    assert(history::values(s.jobs@).len() == s.jobs@.len());
    assert forall|i: int| 0 <= i < res@.len() implies (#[trigger] res@[i])@ == s.jobs@[i]@ by {
        assert(history::values(res@)[i] == res@[i]@);
        assert(history::values(s.jobs@)[i] == s.jobs@[i]@);
    }
}

/// [`api::get_job_handler`] gives the first job with the identifier; where no job has it, the reply
/// says so.
pub proof fn promise_get_job(s: SchedulerInner, id: u128, res: Result<Job, (u16, ErrorResponse)>)
    requires
        call_ensures(api::get_job_handler, (&s, id), res),
    ensures
        match res {
            Ok(job) => exists|i: int|
                {
                    &&& 0 <= i < s.jobs@.len()
                    &&& (#[trigger] s.jobs@[i])@ == job@
                    &&& job.id == id
                    &&& forall|j: int| 0 <= j < i ==> (#[trigger] s.jobs@[j]).id != id
                },
            Err(e) => {
                &&& e.0 == 404
                &&& e.1.error@ == "Job "@ + job_id::id_text(id) + " not found"@
                &&& forall|j: int| 0 <= j < s.jobs@.len() ==> (#[trigger] s.jobs@[j]).id != id
            },
        },
{
    scheduler::lemma_position(s@.jobs, id);
    assert forall|j: int| 0 <= j < s.jobs@.len() implies (#[trigger] s.jobs@[j]).id == s@.jobs[j].id by {}
    if res is Ok {
        let i = scheduler::position(s@.jobs, id)->0;
        assert(s@.jobs[i] == s.jobs@[i]@);
        assert(s.jobs@[i]@ == res->Ok_0@);
    }
}

/// [`api::cancel_job_handler`] succeeds exactly if the first job with the identifier waits, and
/// then the job is cancelled; else nothing changes, and the reply says why.
pub proof fn promise_cancel_job(
    s: &mut SchedulerInner,
    i: int,
    id: u128,
    res: Result<CancelResponse, (u16, ErrorResponse)>,
)
    requires
        call_ensures(api::cancel_job_handler, (s, id), res),
    ensures
        (forall|j: int| 0 <= j < old(s)@.jobs.len() ==> (#[trigger] old(s)@.jobs[j]).id != id)
            ==> res is Err && res->Err_0.0 == 404 && final(s)@ == old(s)@,
        0 <= i < old(s)@.jobs.len() && old(s)@.jobs[i].id == id && (forall|j: int|
            0 <= j < i ==> (#[trigger] old(s)@.jobs[j]).id != id) ==> {
            &&& res is Ok <==> old(s)@.jobs[i].status == JobStatus::Pending
            &&& res is Ok ==> {
                &&& res->Ok_0.id == id
                &&& res->Ok_0.message@ == "Job cancelled"@
                &&& final(s)@.jobs[i].status == JobStatus::Cancelled
                &&& final(s)@.jobs[i].completed_at is Some
                &&& final(s)@.queue == old(s)@.queue.filter(|e: PendingJob| e.id != id)
            }
            &&& res is Err ==> res->Err_0.0 == 409 && final(s)@ == old(s)@
        },
{
    let now = choose|now: Timestamp|
        now.valid() && final(s)@ == #[trigger] old(s)@.cancelled(id, now);
    scheduler::lemma_position(old(s)@.jobs, id);
    if 0 <= i < old(s)@.jobs.len() && old(s)@.jobs[i].id == id && (forall|j: int|
        0 <= j < i ==> (#[trigger] old(s)@.jobs[j]).id != id) {
        scheduler::lemma_position_is(old(s)@.jobs, id, i);
        scheduler::law_cancelled(old(s)@, i, id, now);
    }
}

/// What a request leaves open has priority 5 and 300 seconds, and a health check is answered with
/// `ok`.
pub proof fn promise_defaults(priority: u8, timeout_secs: u64, health: HealthResponse)
    requires
        call_ensures(api::default_priority, (), priority),
        call_ensures(api::default_timeout, (), timeout_secs),
        call_ensures(api::health_handler, (), health),
    ensures
        priority == 5,
        timeout_secs == 300,
        health.status@ == "ok"@,
        health.uptime_secs == 0,
{
}

// Runs.

/// [`run::run_result`] keeps the code of a process that ended by itself, and its outputs.
pub proof fn promise_run_result(
    code: Option<i32>,
    stdout: String,
    stderr: String,
    timeout_secs: u64,
    res: RunResult,
)
    requires
        call_ensures(
            run::run_result,
            (RunOutcome::Exited { code, stdout, stderr }, timeout_secs),
            res,
        ),
    ensures
        res is Finished,
        code is Some ==> res->exit_code == code->0,
        code is None ==> res->exit_code == -1,
        res->Finished_stdout@ == stdout@,
        res->stderr@ == stderr@,
{
    assert(res@ is Finished);
}

/// [`run::complete`] enters the code and the outputs of a command that ran to its end, and the
/// status that the code stands for.
pub proof fn promise_complete(
    job: &mut Job,
    exit_code: i32,
    stdout: String,
    stderr: String,
    now: Timestamp,
    res: (),
)
    requires
        call_ensures(
            run::complete,
            (job, RunResult::Finished { exit_code, stdout, stderr }, now),
            res,
        ),
    ensures
        final(job).exit_code == Some(exit_code),
        final(job).status == if exit_code == 0 {
            JobStatus::Completed
        } else {
            JobStatus::Failed
        },
        final(job).completed_at == Some(now),
        final(job)@.stdout == Some(output::truncated(stdout@, 1_048_576)),
        final(job)@.stderr == Some(output::truncated(stderr@, 1_048_576)),
        final(job).id == old(job).id,
        final(job).name@ == old(job).name@,
        final(job).command@ == old(job).command@,
        final(job).priority == old(job).priority,
        final(job).submitted_at == old(job).submitted_at,
        final(job).started_at == old(job).started_at,
        final(job).timeout_secs == old(job).timeout_secs,
{
    let v = final(job)@;
    assert(v == run::completed_job(
        old(job)@,
        (RunResult::Finished { exit_code, stdout, stderr })@,
        now,
    ));
    assert(v.exit_code == Some(exit_code));
}

/// [`supervise::begin`] has the command started, and [`supervise::step`] then has the process
/// awaited for the time that was set; a process whose time is up is killed.
pub proof fn promise_supervision(
    command: String,
    timeout_secs: u64,
    start: (RunState, RunAction),
    spawned: (RunState, RunAction),
    killed: (RunState, RunAction),
)
    requires
        call_ensures(supervise::begin, (command, timeout_secs), start),
        call_ensures(supervise::step, (start.0, RunEvent::Spawned), spawned),
        call_ensures(supervise::step, (spawned.0, RunEvent::TimeUp), killed),
    ensures
        start.1 == (RunAction::Spawn { command }),
        spawned.1 == (RunAction::Wait { timeout_secs }),
        killed.1 is Kill,
{
    supervise::law_steps(timeout_secs, None);
}

/// [`output::truncate_output`] keeps a text of at most `max_bytes` bytes as it is, and of a longer
/// one the characters that fit, followed by a note.
pub proof fn promise_truncate_output(s: String, max_bytes: usize, res: String) -> (k: int)
    requires
        call_ensures(output::truncate_output, (s, max_bytes), res),
    ensures
        encode_utf8(s@).len() <= max_bytes ==> res@ == s@,
        encode_utf8(s@).len() > max_bytes ==> {
            &&& 0 <= k < s@.len()
            &&& encode_utf8(s@.take(k)).len() <= max_bytes < encode_utf8(s@.take(k + 1)).len()
            &&& res@ == s@.take(k) + "\n... [OUTPUT TRUNCATED — exceeded 1 MB limit]"@
        },
{
    output::law_output_cut(s@, max_bytes as nat)
}

/// What a [`Capture`] has seen is what was added to it, and what comes out at the end is a first
/// part of that: all of it, or more than 1 MB.
pub proof fn promise_capture(
    c: &mut Capture,
    fresh: Capture,
    chunk: &[u8],
    added: (),
    bytes: Vec<u8>,
)
    requires
        call_ensures(Capture::new, (), fresh),
        call_ensures(Capture::add, (c, chunk), added),
        call_ensures(Capture::finish, (*final(c),), bytes),
    ensures
        fresh@.len() == 0,
        final(c)@ == old(c)@ + chunk@,
        bytes@.is_prefix_of(old(c)@ + chunk@),
        bytes@ == old(c)@ + chunk@ || bytes@.len() > 1_048_576,
        bytes@.len() <= 1_048_581,
{
    capture::law_captured(final(c)@);
    capture::law_capture_bounded(final(c)@);
}

// The NPU.

/// [`npu::check_npu_status`] shows the driver as loaded where a line of the list of modules starts
/// with its name and a space, and the device as accessible where it exists and could be read.
pub proof fn promise_check_npu_status(probe: NpuProbe, res: NpuStatus)
    requires
        call_ensures(npu::check_npu_status, (&probe,), res),
    ensures
        probe.modules is None ==> !res.module_loaded,
        probe.modules is Some ==> (res.module_loaded <==> npu::lists_driver(probe.modules->0@)),
        res.device_exists == probe.device_exists,
        res.device_accessible <==> probe.device_exists && probe.device_readable,
        res@.firmware_version == npu::first_version(probe.firmware@),
        res.columns == npu::first_number(probe.columns@),
        probe.driver is Some ==> res@.driver_version == npu::version_in(probe.driver->0@),
        probe.driver is None ==> res.driver_version is None,
{
    npu::law_status_of(probe);
    assert(res@.module_loaded == res.module_loaded);
}

/// The functions behind it read one file or one list of files each.
pub proof fn promise_npu_files(
    content: &str,
    files: Vec<Option<String>>,
    file: Option<String>,
    loaded: bool,
    version: Option<String>,
    number: Option<u32>,
    firmware: Option<String>,
    columns: Option<u32>,
    driver: Option<String>,
)
    requires
        call_ensures(npu::module_loaded, (content,), loaded),
        call_ensures(npu::version_text, (content,), version),
        call_ensures(npu::number_value, (content,), number),
        call_ensures(npu::read_sysfs_firmware_version, (&files,), firmware),
        call_ensures(npu::read_sysfs_columns, (&files,), columns),
        call_ensures(npu::read_driver_version, (&file,), driver),
    ensures
        loaded <==> npu::lists_driver(content@),
        version is Some <==> text::trimmed(content@).len() > 0,
        version is Some ==> version->0@ == text::trimmed(content@),
        match text::unsigned_value(text::trimmed(content@), 4_294_967_295) {
            Some(v) => number is Some && number->0 == v,
            None => number is None,
        },
        firmware is Some <==> npu::first_version(files@) is Some,
        firmware is Some ==> firmware->0@ == npu::first_version(files@)->0,
        columns == npu::first_number(files@),
        file is None ==> driver is None,
        file is Some ==> (driver is Some <==> text::trimmed(file->0@).len() > 0),
        file is Some && driver is Some ==> driver->0@ == text::trimmed(file->0@),
{
    npu::law_file_values(content@);
    if file is Some {
        npu::law_file_values(file->0@);
    }
}

// URLs and requests.

/// A URL that is written from its parts is read as these parts.
pub proof fn promise_from_str(
    s: &str,
    secure: bool,
    host: Seq<char>,
    port: u16,
    path: Seq<char>,
    res: Result<Url, String>,
)
    requires
        call_ensures(Url::from_str, (s,), res),
        !host.contains('/'),
        path.len() > 0,
        path[0] == '/',
        s@ == (if secure {
            "https"@
        } else {
            "http"@
        }) + "://"@ + host + ":"@ + text::decimal(port as nat) + path,
    ensures
        res is Ok,
        res->Ok_0.scheme@ == if secure {
            "https"@
        } else {
            "http"@
        },
        res->Ok_0.host@ == host,
        res->Ok_0.port == Some(port),
        res->Ok_0.path@ == path,
{
    url::law_url_reads_back(secure, host, port, path);
    assert(res is Ok);
    assert(res->Ok_0@.host == host);
}

/// A text is refused as a URL exactly if it starts with neither scheme.
pub proof fn promise_from_str_refusal(s: &str, res: Result<Url, String>)
    requires
        call_ensures(Url::from_str, (s,), res),
    ensures
        res is Ok <==> (s@.len() >= 7 && s@.take(7) == "http://"@) || (s@.len() >= 8 && s@.take(8)
            == "https://"@),
        res is Err ==> res->Err_0@ == "Unsupported scheme"@,
{
    url::law_schemes(s@);
}

/// The parts of a URL are handed out as they are.
pub proof fn promise_url_parts(u: Url, host: Option<&str>, port: Option<u16>, path: &str)
    requires
        call_ensures(Url::host_str, (&u,), host),
        call_ensures(Url::port, (&u,), port),
        call_ensures(Url::path, (&u,), path),
    ensures
        host is Some,
        host->0@ == u.host@,
        port == u.port,
        path@ == u.path@,
{
}

/// The requests go to the host and the port of the URL, 80 where it has none, with its path.
pub proof fn promise_exchanges(
    url: &str,
    body: &str,
    got: Result<Exchange, String>,
    posted: Result<Exchange, String>,
    deleted: Result<Exchange, String>,
)
    requires
        call_ensures(client::cli_get, (url,), got),
        call_ensures(client::cli_post, (url, body), posted),
        call_ensures(client::cli_delete, (url,), deleted),
    ensures
        match url::parsed(url@) {
            Some(u) => {
                let addr = u.host + ":"@ + text::decimal(
                    if u.port is Some {
                        u.port->0 as nat
                    } else {
                        80
                    },
                );
                &&& got is Ok && posted is Ok && deleted is Ok
                &&& got->Ok_0.addr@ == addr
                &&& posted->Ok_0.addr@ == addr
                &&& deleted->Ok_0.addr@ == addr
                &&& got->Ok_0.request@ == "GET "@ + u.path + " HTTP/1.1\r\nHost: "@ + u.host
                    + "\r\n"@ + "Connection: close\r\n\r\n"@
                &&& deleted->Ok_0.request@ == "DELETE "@ + u.path + " HTTP/1.1\r\nHost: "@ + u.host
                    + "\r\n"@ + "Connection: close\r\n\r\n"@
                &&& posted->Ok_0.request@ == "POST "@ + u.path + " HTTP/1.1\r\nHost: "@ + u.host
                    + "\r\n"@ + "Content-Type: application/json\r\nContent-Length: "@
                    + text::decimal(encode_utf8(body@).len()) + "\r\nConnection: close\r\n\r\n"@
                    + body@
            },
            None => {
                &&& got is Err && got->Err_0@ == "Invalid URL"@
                &&& posted is Err && posted->Err_0@ == "Invalid URL"@
                &&& deleted is Err && deleted->Err_0@ == "Invalid URL"@
            },
        },
{
    if url::parsed(url@) is Some {
        url::law_path_starts_with_slash(url@);
        client::law_requests("GET "@, url::parsed(url@)->0, body@);
        client::law_requests("POST "@, url::parsed(url@)->0, body@);
        client::law_requests("DELETE "@, url::parsed(url@)->0, body@);
    }
}

/// The client sends the name, the command and the time limit as it was given them, and the priority
/// up to 9.
pub proof fn promise_submit_request(
    name: String,
    command: String,
    priority: u8,
    timeout_secs: u64,
    res: SubmitRequest,
)
    requires
        call_ensures(client::submit_request, (name, command, priority, timeout_secs), res),
    ensures
        res.name@ == name@,
        res.command@ == command@,
        res.priority == if priority > 9 {
            9
        } else {
            priority
        },
        res.timeout_secs == timeout_secs,
{
}

/// The body of a response follows its first empty line.
pub proof fn promise_response_body(response: &str, p: int, res: String)
    requires
        call_ensures(client::response_body, (response,), res),
        0 <= p && p + 4 <= response@.len(),
        response@.subrange(p, p + 4) == seq!['\r', '\n', '\r', '\n'],
        forall|i: int|
            0 <= i < p ==> #[trigger] response@.subrange(i, i + 4) != seq!['\r', '\n', '\r', '\n'],
    ensures
        res@ == response@.skip(p + 4),
{
    client::law_body(response@, p);
}

// Reports.

/// The report on the daemon's status shows each number under its own label.
pub proof fn promise_status_report(status: StatusResponse, res: String)
    requires
        call_ensures(report::status_report, (&status,), res),
    ensures
        res@ == report::npu_text(status.npu@) + "\n"@ + ("=== Queue Stats ===\n"@ + (
        "  Pending:    "@ + text::decimal(status.queue.pending as nat) + "\n"@) + (
        "  Running:    "@ + text::decimal(status.queue.running as nat) + "\n"@) + (
        "  Completed:  "@ + text::decimal(status.queue.completed as nat) + "\n"@) + (
        "  Failed:     "@ + text::decimal(status.queue.failed as nat) + "\n"@) + (
        "  Cancelled:  "@ + text::decimal(status.queue.cancelled as nat) + "\n"@) + (
        "  Timed out:  "@ + text::decimal(status.queue.timed_out as nat) + "\n"@) + (
        "  Total:      "@ + text::decimal(status.queue.total as nat) + "\n"@)),
{
    report::law_queue_lines(status.queue);
}

/// The line on a submission gives the job's identifier.
pub proof fn promise_submitted_line(response: SubmitResponse, res: String)
    requires
        call_ensures(report::submitted_line, (&response,), res),
    ensures
        res@ == "Job submitted: "@ + job_id::id_text(response.id) + "\n"@,
{
}

/// A name is shortened with three dots, and only where it takes more than `max` bytes.
pub proof fn promise_truncate(s: &str, max: usize, res: String) -> (k: int)
    requires
        call_ensures(report::truncate, (s, max), res),
    ensures
        encode_utf8(s@).len() <= max ==> res@ == s@,
        encode_utf8(s@).len() > max ==> 0 <= k < s@.len() && res@ == s@.take(k) + seq!['.', '.', '.']
            && encode_utf8(s@.take(k)).len() <= (if max < 3 {
            0int
        } else {
            max - 3
        }) < encode_utf8(s@.take(k + 1)).len(),
{
    report::law_shortened(s@, max as nat)
}

/// The head of the job table has the titles of its columns and a rule of 96 hyphens; without jobs
/// there is one line that says so.
pub proof fn promise_table_head(jobs: usize, res: String)
    requires
        call_ensures(report::table_head, (jobs,), res),
    ensures
        jobs == 0 ==> res@ == "No jobs.\n"@,
        jobs > 0 ==> res@ == text::padded("ID"@, 38) + " "@ + text::padded("NAME"@, 20) + " "@
            + text::padded("PRI"@, 4) + " "@ + text::padded("STATUS"@, 12) + " "@ + text::padded(
            "SUBMITTED"@,
            20,
        ) + "\n"@ + text::repeated('-', 96) + "\n"@,
{
}

/// The line of a job shows its fields in columns, the date of its submission as it is written in UTC.
pub proof fn promise_job_row(job: Job, submitted: &str, with: String, res: String)
    requires
        call_ensures(report::job_row_with, (&job, submitted), with),
        call_ensures(report::job_row, (&job,), res),
    ensures
        with@ == job_id::id_text(job.id) + " "@ + text::padded(
            report::shortened(job.name@, 20),
            20,
        ) + " "@ + text::padded(text::decimal(job.priority as nat), 4) + " "@ + text::padded(
            job.status.label_text(),
            12,
        ) + " "@ + text::padded(submitted@, 20) + "\n"@,
        res@ == job_id::id_text(job.id) + " "@ + text::padded(report::shortened(job.name@, 20), 20)
            + " "@ + text::padded(text::decimal(job.priority as nat), 4) + " "@ + text::padded(
            job.status.label_text(),
            12,
        ) + " "@ + text::padded(
            time::utc_text(job.submitted_at.secs, job.submitted_at.nanos, "%Y-%m-%d %H:%M:%S"@),
            20,
        ) + "\n"@,
{
}

// Texts.

/// Numbers are written in decimal and read back.
pub proof fn promise_numbers(n: u32, max: u32, s: String, chars: Vec<char>, res: Option<u32>)
    requires
        call_ensures(text::decimal_string, (n as u64,), s),
        chars@ == s@,
        call_ensures(text::parse_unsigned, (&chars, 0usize, max), res),
    ensures
        n <= max ==> res == Some(n),
        n > max ==> res is None,
{
    text::lemma_decimal_digits(n as nat);
    assert(chars@.skip(0) == chars@);
    assert(text::decimal(n as nat)[0] != '+') by {
        assert(text::is_digit(text::decimal(n as nat)[0]));
    }
    assert(text::unsigned_digits(chars@) == chars@);
}

/// Searching finds the first place of a pattern, and the first and the last of a character.
pub proof fn promise_searches(
    s: Vec<char>,
    pat: Vec<char>,
    c: char,
    end: usize,
    found: Option<usize>,
    first: Option<usize>,
    last: Option<usize>,
)
    requires
        end <= s@.len(),
        call_ensures(text::find, (&s, &pat), found),
        call_ensures(text::find_char, (&s, c), first),
        call_ensures(text::find_last_char, (&s, end, c), last),
    ensures
        match found {
            Some(p) => p + pat@.len() <= s@.len() && s@.subrange(p as int, p + pat@.len()) == pat@
                && forall|i: int| 0 <= i < p ==> #[trigger] s@.subrange(i, i + pat@.len()) != pat@,
            None => forall|i: int|
                0 <= i && i + pat@.len() <= s@.len() ==> #[trigger] s@.subrange(i, i + pat@.len())
                    != pat@,
        },
        match first {
            Some(p) => p < s@.len() && s@[p as int] == c && forall|i: int|
                0 <= i < p ==> #[trigger] s@[i] != c,
            None => forall|i: int| 0 <= i < s@.len() ==> #[trigger] s@[i] != c,
        },
        match last {
            Some(p) => p < end && s@[p as int] == c && forall|i: int|
                p < i < end ==> #[trigger] s@[i] != c,
            None => forall|i: int| 0 <= i < end ==> #[trigger] s@[i] != c,
        },
{
    text::law_first_match(s@, pat@, 0);
    s@.index_of_first_ensures(c);
    let t = s@.take(end as int);
    t.index_of_last_ensures(c);
    assert forall|i: int| 0 <= i < end implies #[trigger] s@[i] == t[i] by {}
    if last is None {
        assert forall|i: int| 0 <= i < end implies #[trigger] s@[i] != c by {
            assert(t[i] == s@[i]);
        }
    }
    if last is Some {
        let p = last->0;
        assert forall|i: int| p < i < end implies #[trigger] s@[i] != c by {
            assert(t[i] == s@[i]);
        }
    }
}

/// Texts are taken apart, trimmed and filled up character by character.
pub proof fn promise_texts(
    s: &str,
    width: usize,
    chars: Vec<char>,
    trimmed: String,
    padded: String,
    rule: String,
)
    requires
        call_ensures(text::to_chars, (s,), chars),
        call_ensures(text::trim, (s,), trimmed),
        call_ensures(text::pad, (s, width), padded),
        call_ensures(text::rule, (width,), rule),
    ensures
        chars@ == s@,
        trimmed@ == text::trimmed(s@),
        s@.len() >= width ==> padded@ == s@,
        s@.len() < width ==> padded@.len() == width && padded@.take(s@.len() as int) == s@
            && forall|i: int| s@.len() <= i < width ==> #[trigger] padded@[i] == ' ',
        rule@.len() == width,
        forall|i: int| 0 <= i < width ==> #[trigger] rule@[i] == '-',
{
    text::law_padded(s@, width as nat);
}

/// A pattern is recognised at a place exactly if the text goes on with it there.
pub proof fn promise_matches_at(s: Vec<char>, pat: Vec<char>, at: usize, res: bool)
    requires
        call_ensures(text::matches_at, (&s, &pat, at), res),
    ensures
        res <==> at + pat@.len() <= s@.len() && forall|k: int|
            0 <= k < pat@.len() ==> s@[at + k] == #[trigger] pat@[k],
{
    text::law_stands_at(s@, pat@, at as int);
}

// The other functions on jobs.

/// A status is named after itself, and its label is the name in lower case.
pub proof fn promise_status_names(status: JobStatus, name: &'static str, label: &'static str)
    requires
        call_ensures(JobStatus::name, (&status,), name),
        call_ensures(JobStatus::label, (&status,), label),
    ensures
        status == JobStatus::Pending ==> name@ == "Pending"@ && label@ == "pending"@,
        status == JobStatus::Running ==> name@ == "Running"@ && label@ == "running"@,
        status == JobStatus::Completed ==> name@ == "Completed"@ && label@ == "completed"@,
        status == JobStatus::Failed ==> name@ == "Failed"@ && label@ == "failed"@,
        status == JobStatus::Cancelled ==> name@ == "Cancelled"@ && label@ == "cancelled"@,
        status == JobStatus::TimedOut ==> name@ == "TimedOut"@ && label@ == "timedout"@,
{
}

/// [`PendingJob::cmp`] puts the lower priority, and within a priority the later submission, below.
pub proof fn promise_cmp(a: PendingJob, b: PendingJob, res: Ordering)
    requires
        call_ensures(PendingJob::cmp, (&a, &b), res),
    ensures
        a.priority < b.priority ==> res == Ordering::Less,
        a.priority > b.priority ==> res == Ordering::Greater,
        a.priority == b.priority && (a.submitted_at.secs > b.submitted_at.secs || (
        a.submitted_at.secs == b.submitted_at.secs && a.submitted_at.nanos > b.submitted_at.nanos))
            ==> res == Ordering::Less,
        a.priority == b.priority && (a.submitted_at.secs < b.submitted_at.secs || (
        a.submitted_at.secs == b.submitted_at.secs && a.submitted_at.nanos < b.submitted_at.nanos))
            ==> res == Ordering::Greater,
        a.priority == b.priority && a.submitted_at.secs == b.submitted_at.secs
            && a.submitted_at.nanos == b.submitted_at.nanos ==> res == Ordering::Equal,
{
}

/// Entries compare as [`PendingJob::cmp`] says, and are equal exactly if they are of the same job.
pub proof fn promise_entry_traits(
    a: PendingJob,
    b: PendingJob,
    equal: bool,
    order: Option<Ordering>,
    ranked: Ordering,
)
    requires
        call_ensures(PendingJob::eq, (&a, &b), equal),
        call_ensures(PendingJob::partial_cmp, (&a, &b), order),
        call_ensures(PendingJob::cmp, (&a, &b), ranked),
    ensures
        equal <==> a.id == b.id,
        order == Some(ranked),
{
}

// The other functions on the scheduler.

/// [`SchedulerInner::find`] gives the first place of a job with the identifier.
pub proof fn promise_find(s: SchedulerInner, id: u128, res: Option<usize>)
    requires
        call_ensures(SchedulerInner::find, (&s, id), res),
    ensures
        match res {
            Some(i) => i < s.jobs@.len() && s.jobs@[i as int].id == id && forall|j: int|
                0 <= j < i ==> (#[trigger] s.jobs@[j]).id != id,
            None => forall|j: int| 0 <= j < s.jobs@.len() ==> (#[trigger] s.jobs@[j]).id != id,
        },
{
    scheduler::lemma_position(s@.jobs, id);
    assert forall|j: int| 0 <= j < s.jobs@.len() implies (#[trigger] s.jobs@[j]).id == s@.jobs[j].id by {}
}

/// [`SchedulerInner::enqueue`] puts the job behind the others, and its entry into the queue.
pub proof fn promise_enqueue(s: &mut SchedulerInner, job: Job, res: ()) -> (p: int)
    requires
        queue::ascending(old(s)@.queue),
        call_ensures(SchedulerInner::enqueue, (s, job), res),
    ensures
        final(s)@.jobs == old(s)@.jobs.push(job@),
        0 <= p <= old(s)@.queue.len(),
        final(s)@.queue == old(s)@.queue.take(p) + seq![
            PendingJob { id: job.id, priority: job.priority, submitted_at: job.submitted_at },
        ] + old(s)@.queue.skip(p),
        final(s)@.running_count == old(s)@.running_count,
        final(s)@.concurrency_limit == old(s)@.concurrency_limit,
        final(s)@.max_history == old(s)@.max_history,
{
    scheduler::law_submitted(old(s)@, job@)
}

/// [`SchedulerInner::mark_running`] marks the first job with the identifier as running since `now`,
/// and no other, and counts it.
pub proof fn promise_mark_running(
    s: &mut SchedulerInner,
    i: int,
    id: u128,
    now: Timestamp,
    res: (),
)
    requires
        call_ensures(SchedulerInner::mark_running, (s, id, now), res),
        0 <= i < old(s)@.jobs.len(),
        old(s)@.jobs[i].id == id,
        forall|j: int| 0 <= j < i ==> (#[trigger] old(s)@.jobs[j]).id != id,
    ensures
        final(s)@.jobs == old(s)@.jobs.update(
            i,
            JobView { status: JobStatus::Running, started_at: Some(now), ..old(s)@.jobs[i] },
        ),
        final(s)@.running_count == old(s)@.running_count + 1,
        final(s)@.queue == old(s)@.queue,
        final(s)@.concurrency_limit == old(s)@.concurrency_limit,
        final(s)@.max_history == old(s)@.max_history,
{
    scheduler::law_started(old(s)@, i, id, now);
}

/// [`SchedulerInner::complete_at`] enters a result into the first job with the identifier, counts
/// one running job fewer, and cuts the history down.
pub proof fn promise_complete_at(
    s: &mut SchedulerInner,
    i: int,
    id: u128,
    result: RunResult,
    now: Timestamp,
    res: (),
)
    requires
        call_ensures(SchedulerInner::complete_at, (s, id, result, now), res),
        0 <= i < old(s)@.jobs.len(),
        old(s)@.jobs[i].id == id,
        forall|j: int| 0 <= j < i ==> (#[trigger] old(s)@.jobs[j]).id != id,
    ensures
        final(s)@.jobs == history::limited(
            old(s)@.jobs.update(i, run::completed_job(old(s)@.jobs[i], result@, now)),
            old(s)@.max_history,
        ),
        old(s)@.running_count > 0 ==> final(s)@.running_count == old(s)@.running_count - 1,
        old(s)@.running_count == 0 ==> final(s)@.running_count == 0,
        final(s)@.queue == old(s)@.queue,
        final(s)@.concurrency_limit == old(s)@.concurrency_limit,
        final(s)@.max_history == old(s)@.max_history,
{
    scheduler::law_result_entered(old(s)@, i, id, result@, now);
}

/// [`scheduler::evict_old_jobs`] cuts the jobs down to the limit and touches nothing else.
pub proof fn promise_evict_old_jobs(s: &mut SchedulerInner, res: ())
    requires
        call_ensures(scheduler::evict_old_jobs, (s,), res),
    ensures
        final(s)@.jobs == history::limited(old(s)@.jobs, old(s)@.max_history),
        final(s)@.queue == old(s)@.queue,
        final(s)@.running_count == old(s)@.running_count,
        final(s)@.concurrency_limit == old(s)@.concurrency_limit,
        final(s)@.max_history == old(s)@.max_history,
{
}

// The other functions on requests.

/// The limits cut a priority down to 9 and a time limit down to 3600 seconds; zero seconds stand
/// for 300.
pub proof fn promise_limits(priority: u8, timeout_secs: u64, p: u8, t: u64)
    requires
        call_ensures(api::limit_priority, (priority,), p),
        call_ensures(api::limit_timeout, (timeout_secs,), t),
    ensures
        p == if priority > 9 {
            9
        } else {
            priority
        },
        t == if timeout_secs == 0 {
            300
        } else if timeout_secs > 3600 {
            3600
        } else {
            timeout_secs
        },
{
}

/// [`api::queue_stats`] counts the jobs of each status under its own name.
pub proof fn promise_queue_stats(s: SchedulerInner, res: QueueStats)
    requires
        call_ensures(api::queue_stats, (&s,), res),
    ensures
        res.pending == s@.jobs.filter(|j: JobView| j.status == JobStatus::Pending).len(),
        res.running == s@.jobs.filter(|j: JobView| j.status == JobStatus::Running).len(),
        res.completed == s@.jobs.filter(|j: JobView| j.status == JobStatus::Completed).len(),
        res.failed == s@.jobs.filter(|j: JobView| j.status == JobStatus::Failed).len(),
        res.cancelled == s@.jobs.filter(|j: JobView| j.status == JobStatus::Cancelled).len(),
        res.timed_out == s@.jobs.filter(|j: JobView| j.status == JobStatus::TimedOut).len(),
        res.total == s.jobs@.len(),
{
    api::law_counts(res, s@.jobs);
}

/// [`api::cancel_at`] cancels as of `now` the first job with the identifier, where it waits.
pub proof fn promise_cancel_reply(
    s: &mut SchedulerInner,
    i: int,
    id: u128,
    now: Timestamp,
    res: Result<CancelResponse, (u16, ErrorResponse)>,
)
    requires
        call_ensures(api::cancel_at, (s, id, now), res),
        0 <= i < old(s)@.jobs.len(),
        old(s)@.jobs[i].id == id,
        forall|j: int| 0 <= j < i ==> (#[trigger] old(s)@.jobs[j]).id != id,
    ensures
        res is Ok <==> old(s)@.jobs[i].status == JobStatus::Pending,
        res is Ok ==> {
            &&& res->Ok_0.id == id
            &&& res->Ok_0.message@ == "Job cancelled"@
            &&& final(s)@.jobs == old(s)@.jobs.update(
                i,
                JobView { status: JobStatus::Cancelled, completed_at: Some(now), ..old(s)@.jobs[i] },
            )
        },
        res is Err ==> {
            &&& res->Err_0.0 == 409
            &&& res->Err_0.1.error@ == api::conflict_text(id, old(s)@.jobs[i].status)
            &&& final(s)@ == old(s)@
        },
{
    scheduler::lemma_position_is(old(s)@.jobs, id, i);
    scheduler::law_cancelled(old(s)@, i, id, now);
}

// The other functions on runs and outputs.

/// [`run::run_result`] tells a run that failed or took too long by its message, and keeps what a
/// run that took too long had written.
pub proof fn promise_failed_runs(
    error: String,
    stdout: String,
    stderr: String,
    timeout_secs: u64,
    spawn: RunResult,
    wait: RunResult,
    late: RunResult,
)
    requires
        call_ensures(run::run_result, (RunOutcome::SpawnFailed { error }, timeout_secs), spawn),
        call_ensures(run::run_result, (RunOutcome::WaitFailed { error }, timeout_secs), wait),
        call_ensures(run::run_result, (RunOutcome::TimedOut { stdout, stderr }, timeout_secs), late),
    ensures
        spawn is Error && spawn->Error_message@ == "Failed to spawn: "@ + error@,
        wait is Error && wait->Error_message@ == "Failed to wait: "@ + error@,
        late is TimedOut && late->TimedOut_stdout@ == stdout@,
        stderr@.len() == 0 ==> late->TimedOut_message@ == "Job timed out after "@ + text::decimal(
            timeout_secs as nat,
        ) + " seconds"@,
        stderr@.len() > 0 ==> late->TimedOut_message@ == "Job timed out after "@ + text::decimal(
            timeout_secs as nat,
        ) + " seconds. Partial stderr:\n"@ + stderr@,
{
    assert(spawn@ is Error && wait@ is Error && late@ is TimedOut);
}

/// [`run::complete`] enters an error as a failure, and a run that took too long with its output.
pub proof fn promise_complete_failed(
    failed: &mut Job,
    late: &mut Job,
    message: String,
    stdout: String,
    now: Timestamp,
    f: (),
    l: (),
)
    requires
        call_ensures(run::complete, (failed, RunResult::Error { message }, now), f),
        call_ensures(run::complete, (late, RunResult::TimedOut { stdout, message }, now), l),
    ensures
        final(failed)@ == (JobView {
            status: JobStatus::Failed,
            completed_at: Some(now),
            stderr: Some(output::truncated("Execution error: "@ + message@, 1_048_576)),
            ..old(failed)@
        }),
        final(late)@ == (JobView {
            status: JobStatus::TimedOut,
            completed_at: Some(now),
            stdout: Some(output::truncated(stdout@, 1_048_576)),
            stderr: Some(output::truncated(message@, 1_048_576)),
            ..old(late)@
        }),
{
}

/// [`supervise::accepts`] and [`supervise::step`] follow the events that can happen and what they
/// call for.
pub proof fn promise_steps(state: RunState, event: RunEvent, ok: bool, res: (RunState, RunAction))
    requires
        call_ensures(supervise::accepts, (&state, &event), ok),
        call_ensures(supervise::step, (state, event), res),
    ensures
        ok <==> supervise::can_happen(state, event),
        res == supervise::stepped(state, event),
{
}

/// [`capture::read_pipe`] gives the text of what was written where that is short, and where a long
/// output is UTF-8 a first part of its text that takes more than 1 MB; no pipe gives no text.
pub proof fn promise_read_pipe(c: Capture, none: String, res: String)
    requires
        call_ensures(capture::read_pipe, (None,), none),
        call_ensures(capture::read_pipe, (Some(c),), res),
    ensures
        none@.len() == 0,
        c@.len() < 1_048_581 ==> res@ == output::utf8_lossy(c@),
        c@.len() < 1_048_581 && valid_utf8(c@) ==> res@ == decode_utf8(c@),
        valid_utf8(c@) ==> res@.is_prefix_of(decode_utf8(c@)) && (res@ == decode_utf8(c@)
            || encode_utf8(res@).len() > 1_048_576),
{
    capture::law_captured(c@);
    if valid_utf8(c@) {
        capture::law_captured_text(c@);
        capture::law_keeps_enough(res@, decode_utf8(c@));
    }
}

/// [`client::read_response`] gives the body of the text that the bytes encode.
pub proof fn promise_read_response(bytes: &[u8], res: String)
    requires
        call_ensures(client::read_response, (bytes,), res),
    ensures
        res@ == client::body_of(output::utf8_lossy(bytes@)),
        valid_utf8(bytes@) ==> res@ == client::body_of(decode_utf8(bytes@)),
{
}

/// [`report::is_truncatable`] holds of a text that is short enough or whose cut lies between two
/// characters.
pub proof fn promise_is_truncatable(s: &str, max: usize, res: bool)
    requires
        call_ensures(report::is_truncatable, (s, max), res),
    ensures
        res <==> encode_utf8(s@).len() <= max || is_char_boundary(
            encode_utf8(s@),
            if max < 3 {
                0
            } else {
                max - 3
            },
        ),
{
}

} // verus!
