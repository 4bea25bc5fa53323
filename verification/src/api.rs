//! The requests that the daemon serves and its replies.

use vstd::prelude::*;
use crate::history;
use crate::job::{Job, JobStatus, JobView};
use crate::job_id;
use crate::job_id::{id_string, new_id};
use crate::npu::NpuStatus;
use crate::scheduler::SchedulerInner;
use crate::time::{utc_now, Timestamp};

verus! {

/// The HTTP status of a reply to a request that created something.
pub const CREATED: u16 = 201;

/// The HTTP status of a reply to a request for something that does not exist.
pub const NOT_FOUND: u16 = 404;

/// The HTTP status of a reply to a request that the state of its object rules out.
pub const CONFLICT: u16 = 409;

/// The highest priority of a job.
pub const MAX_PRIORITY: u8 = 9;

/// The longest time limit of a job, in seconds.
pub const MAX_TIMEOUT_SECS: u64 = 3600;

/// A request to run a command.
#[derive(Debug)]
pub struct SubmitRequest {
    pub name: String,
    pub command: String,
    pub priority: u8,
    pub timeout_secs: u64,
}

/// The priority of a request that gives none.
pub fn default_priority() -> (res: u8)
    ensures
        res == 5,
{
    5
}

/// The time limit in seconds of a request that gives none.
pub fn default_timeout() -> (res: u64)
    ensures
        res == 300,
{
    300
}

/// The reply to a request to run a command.
#[derive(Debug)]
pub struct SubmitResponse {
    pub id: u128,
    pub message: String,
    pub timeout_secs: u64,
}

/// The reply to a request for the daemon's status.
#[derive(Debug)]
pub struct StatusResponse {
    pub npu: NpuStatus,
    pub queue: QueueStats,
}

/// How many jobs there are of each status, and in all.
#[derive(Debug, Clone, Copy, PartialEq, Eq, Structural)]
pub struct QueueStats {
    pub pending: usize,
    pub running: usize,
    pub completed: usize,
    pub failed: usize,
    pub cancelled: usize,
    pub timed_out: usize,
    pub total: usize,
}

/// The reply to a health check.
#[derive(Debug)]
pub struct HealthResponse {
    pub status: String,
    pub uptime_secs: u64,
}

/// The reply to a request to cancel a job.
#[derive(Debug)]
pub struct CancelResponse {
    pub message: String,
    pub id: u128,
}

/// The reply to a request that failed.
#[derive(Debug)]
pub struct ErrorResponse {
    pub error: String,
}

// Health.

/// Replies to a health check.
pub fn health_handler() -> (res: HealthResponse)
    ensures
        res.status@ == "ok"@,
        res.uptime_secs == 0,
{
    HealthResponse { status: "ok".to_string(), uptime_secs: 0 }
}

// Status.

/// How many jobs have a status.
pub open spec fn count(jobs: Seq<JobView>, status: JobStatus) -> nat
    decreases jobs.len(),
{
    if jobs.len() == 0 {
        0
    } else {
        count(jobs.drop_last(), status) + if jobs.last().status == status {
            1nat
        } else {
            0nat
        }
    }
}

/// Whether the numbers are those of a list of jobs.
pub open spec fn counts(stats: QueueStats, jobs: Seq<JobView>) -> bool {
    &&& stats.pending == count(jobs, JobStatus::Pending)
    &&& stats.running == count(jobs, JobStatus::Running)
    &&& stats.completed == count(jobs, JobStatus::Completed)
    &&& stats.failed == count(jobs, JobStatus::Failed)
    &&& stats.cancelled == count(jobs, JobStatus::Cancelled)
    &&& stats.timed_out == count(jobs, JobStatus::TimedOut)
    &&& stats.total == jobs.len()
}

/// Every job has one of the six statuses: the numbers of jobs of each add up to that of all jobs.
pub proof fn law_counts_add_up(jobs: Seq<JobView>)
    ensures
        count(jobs, JobStatus::Pending) + count(jobs, JobStatus::Running) + count(
            jobs,
            JobStatus::Completed,
        ) + count(jobs, JobStatus::Failed) + count(jobs, JobStatus::Cancelled) + count(
            jobs,
            JobStatus::TimedOut,
        ) == jobs.len(),
    decreases jobs.len(),
{
    if jobs.len() > 0 {
        law_counts_add_up(jobs.drop_last());
    }
}

/// Counts the jobs of each status.
pub fn queue_stats(inner: &SchedulerInner) -> (res: QueueStats)
    ensures
        counts(res, inner@.jobs),
{
    let mut stats = QueueStats {
        pending: 0,
        running: 0,
        completed: 0,
        failed: 0,
        cancelled: 0,
        timed_out: 0,
        total: 0,
    };
    let ghost vs = inner@.jobs;
    assert(vs.take(0) == Seq::<JobView>::empty());
    while stats.total < inner.jobs.len()
        invariant
            vs == inner@.jobs,
            stats.total <= inner.jobs@.len(),
            counts(stats, vs.take(stats.total as int)),
        decreases inner.jobs@.len() - stats.total,
    {
        let k: usize = stats.total;
        proof {
            law_counts_add_up(vs.take(k as int));
            assert(vs[k as int] == inner.jobs@[k as int]@);
            assert(vs.take(k + 1).drop_last() == vs.take(k as int));
            assert(vs.take(k + 1).last() == vs[k as int]);
        }
        match inner.jobs[k].status {
            JobStatus::Pending => {
                stats.pending = stats.pending + 1;
            },
            JobStatus::Running => {
                stats.running = stats.running + 1;
            },
            JobStatus::Completed => {
                stats.completed = stats.completed + 1;
            },
            JobStatus::Failed => {
                stats.failed = stats.failed + 1;
            },
            JobStatus::Cancelled => {
                stats.cancelled = stats.cancelled + 1;
            },
            JobStatus::TimedOut => {
                stats.timed_out = stats.timed_out + 1;
            },
        }
        stats.total = k + 1;
    }
    assert(vs.take(stats.total as int) == vs);
    stats
}

/// Replies to a request for the daemon's status.
pub fn status_handler(inner: &SchedulerInner, npu: NpuStatus) -> (res: StatusResponse)
    ensures
        res.npu == npu,
        counts(res.queue, inner@.jobs),
{
    StatusResponse { npu, queue: queue_stats(inner) }
}

// Submission.

/// A priority, limited to the highest.
pub open spec fn limited_priority(priority: u8) -> u8 {
    if priority > MAX_PRIORITY {
        MAX_PRIORITY
    } else {
        priority
    }
}

/// A time limit in seconds: zero stands for the default, and longer ones than the longest are
/// cut down to it.
pub open spec fn limited_timeout(timeout_secs: u64) -> u64 {
    if timeout_secs == 0 {
        300
    } else if timeout_secs > MAX_TIMEOUT_SECS {
        MAX_TIMEOUT_SECS
    } else {
        timeout_secs
    }
}

/// The job that a request asks for.
pub open spec fn requested_job(req: SubmitRequest, id: u128, now: Timestamp) -> JobView {
    JobView {
        id,
        name: req.name@,
        command: req.command@,
        priority: limited_priority(req.priority),
        status: JobStatus::Pending,
        exit_code: None,
        stdout: None,
        stderr: None,
        submitted_at: now,
        started_at: None,
        completed_at: None,
        timeout_secs: limited_timeout(req.timeout_secs),
    }
}

/// What is within the limits already stays as it is, so a request that the client has limited is
/// treated like the one that it was given.
pub proof fn law_limits_idempotent(priority: u8, timeout_secs: u64)
    ensures
        limited_priority(limited_priority(priority)) == limited_priority(priority),
        limited_timeout(limited_timeout(timeout_secs)) == limited_timeout(timeout_secs),
{
}

/// Limits a priority to the highest.
pub fn limit_priority(priority: u8) -> (res: u8)
    ensures
        res == limited_priority(priority),
{
    if priority > MAX_PRIORITY {
        MAX_PRIORITY
    } else {
        priority
    }
}

/// Limits a time limit; zero stands for the default.
pub fn limit_timeout(timeout_secs: u64) -> (res: u64)
    ensures
        res == limited_timeout(timeout_secs),
{
    if timeout_secs == 0 {
        default_timeout()
    } else if timeout_secs > MAX_TIMEOUT_SECS {
        MAX_TIMEOUT_SECS
    } else {
        timeout_secs
    }
}

/// Whether a reply tells of a job that was created.
pub open spec fn created(reply: (u16, SubmitResponse), job: JobView) -> bool {
    &&& reply.0 == CREATED
    &&& reply.1.id == job.id
    &&& reply.1.message@ == "Job submitted"@
    &&& reply.1.timeout_secs == job.timeout_secs
}

/// Adds the job that a request asks for, under the given identifier and as of `now`, and
/// replies.
pub fn submit_at(inner: &mut SchedulerInner, req: SubmitRequest, id: u128, now: Timestamp) -> (res: (
    u16,
    SubmitResponse,
))
    requires
        old(inner).wf(),
    ensures
        final(inner).wf(),
        final(inner)@ == old(inner)@.submitted(requested_job(req, id, now)),
        created(res, requested_job(req, id, now)),
{
    let timeout_secs = limit_timeout(req.timeout_secs);
    let ghost job_view = requested_job(req, id, now);
    let job = Job {
        id,
        name: req.name,
        command: req.command,
        priority: limit_priority(req.priority),
        status: JobStatus::Pending,
        exit_code: None,
        stdout: None,
        stderr: None,
        submitted_at: now,
        started_at: None,
        completed_at: None,
        timeout_secs,
    };
    assert(job@ == job_view);
    inner.enqueue(job);
    (CREATED, SubmitResponse { id, message: "Job submitted".to_string(), timeout_secs })
}

/// Adds the job that a request asks for, under a fresh identifier and as of the present
/// moment, and replies.
pub fn submit_handler(inner: &mut SchedulerInner, req: SubmitRequest) -> (res: (
    u16,
    SubmitResponse,
))
    requires
        old(inner).wf(),
    ensures
        final(inner).wf(),
        exists|id: u128, now: Timestamp|
            {
                &&& job_id::is_random_uuid(id)
                &&& now.valid()
                &&& final(inner)@ == old(inner)@.submitted(#[trigger] requested_job(req, id, now))
                &&& created(res, requested_job(req, id, now))
            },
{
    let now = utc_now();
    let id = new_id();
    submit_at(inner, req, id, now)
}

// Jobs.

/// Replies to a request for all jobs.
pub fn list_jobs_handler(inner: &SchedulerInner) -> (res: Vec<Job>)
    ensures
        history::values(res@) == inner@.jobs,
{
    let mut res: Vec<Job> = Vec::new();
    let mut k: usize = 0;
    assert(inner@.jobs.take(0) == Seq::<JobView>::empty());
    assert(history::values(res@) == Seq::<JobView>::empty());
    while k < inner.jobs.len()
        invariant
            k <= inner.jobs@.len(),
            history::values(res@) == inner@.jobs.take(k as int),
        decreases inner.jobs@.len() - k,
    {
        let ghost before = res@;
        let job = inner.jobs[k].clone();
        res.push(job);
        assert(history::values(res@) == history::values(before).push(job@));
        assert(inner@.jobs.take(k + 1) == inner@.jobs.take(k as int).push(inner@.jobs[k as int]));
        k = k + 1;
    }
    assert(inner@.jobs.take(k as int) == inner@.jobs);
    res
}

/// The message of a reply about a job that does not exist.
pub open spec fn not_found_text(id: u128) -> Seq<char> {
    "Job "@ + job_id::id_text(id) + " not found"@
}

/// The message of a reply to a request to cancel a job that does not wait.
pub open spec fn conflict_text(id: u128, status: JobStatus) -> Seq<char> {
    "Job "@ + job_id::id_text(id) + " is "@ + status.name_text()
        + ", can only cancel pending jobs"@
}

fn not_found(id: u128) -> (res: (u16, ErrorResponse))
    ensures
        res.0 == NOT_FOUND,
        res.1.error@ == not_found_text(id),
{
    let mut error = "Job ".to_string();
    error.append(id_string(id).as_str());
    error.append(" not found");
    (NOT_FOUND, ErrorResponse { error })
}

/// Replies to a request for one job.
pub fn get_job_handler(inner: &SchedulerInner, id: u128) -> (res: Result<Job, (u16, ErrorResponse)>)
    ensures
        match inner@.job(id) {
            Some(job) => res is Ok && res->Ok_0@ == job,
            None => {
                &&& res is Err
                &&& res->Err_0.0 == NOT_FOUND
                &&& res->Err_0.1.error@ == not_found_text(id)
            },
        },
{
    match inner.find(id) {
        Some(i) => Ok(inner.jobs[i].clone()),
        None => Err(not_found(id)),
    }
}

/// Whether a reply is the one to a request to cancel a job: that the job was cancelled where
/// it waited, else that it could not be or does not exist.
pub open spec fn is_cancel_reply(
    reply: Result<CancelResponse, (u16, ErrorResponse)>,
    id: u128,
    job: Option<JobView>,
) -> bool {
    match job {
        Some(job) if job.status is Pending => {
            &&& reply is Ok
            &&& reply->Ok_0.message@ == "Job cancelled"@
            &&& reply->Ok_0.id == id
        },
        Some(job) => {
            &&& reply is Err
            &&& reply->Err_0.0 == CONFLICT
            &&& reply->Err_0.1.error@ == conflict_text(id, job.status)
        },
        None => {
            &&& reply is Err
            &&& reply->Err_0.0 == NOT_FOUND
            &&& reply->Err_0.1.error@ == not_found_text(id)
        },
    }
}

/// Cancels a job that waits, as of `now`, and replies.
pub fn cancel_at(inner: &mut SchedulerInner, id: u128, now: Timestamp) -> (res: Result<
    CancelResponse,
    (u16, ErrorResponse),
>)
    requires
        old(inner).wf(),
    ensures
        final(inner).wf(),
        final(inner)@ == old(inner)@.cancelled(id, now),
        is_cancel_reply(res, id, old(inner)@.job(id)),
{
    match inner.cancel_at(id, now) {
        Some(status) => {
            if status == JobStatus::Pending {
                Ok(CancelResponse { message: "Job cancelled".to_string(), id })
            } else {
                let mut error = "Job ".to_string();
                error.append(id_string(id).as_str());
                error.append(" is ");
                error.append(status.name());
                error.append(", can only cancel pending jobs");
                Err((CONFLICT, ErrorResponse { error }))
            }
        },
        None => Err(not_found(id)),
    }
}

/// Cancels a job that waits, as of the present moment, and replies.
pub fn cancel_job_handler(inner: &mut SchedulerInner, id: u128) -> (res: Result<
    CancelResponse,
    (u16, ErrorResponse),
>)
    requires
        old(inner).wf(),
    ensures
        final(inner).wf(),
        exists|now: Timestamp|
            now.valid() && final(inner)@ == #[trigger] old(inner)@.cancelled(id, now),
        is_cancel_reply(res, id, old(inner)@.job(id)),
{
    let now = utc_now();
    cancel_at(inner, id, now)
}

// What the requests and replies mean.

/// Each number is that of the jobs whose status it is named after, and the total is that of all.
pub proof fn law_counts(stats: QueueStats, jobs: Seq<JobView>)
    requires
        counts(stats, jobs),
    ensures
        stats.pending == jobs.filter(|j: JobView| j.status == JobStatus::Pending).len(),
        stats.running == jobs.filter(|j: JobView| j.status == JobStatus::Running).len(),
        stats.completed == jobs.filter(|j: JobView| j.status == JobStatus::Completed).len(),
        stats.failed == jobs.filter(|j: JobView| j.status == JobStatus::Failed).len(),
        stats.cancelled == jobs.filter(|j: JobView| j.status == JobStatus::Cancelled).len(),
        stats.timed_out == jobs.filter(|j: JobView| j.status == JobStatus::TimedOut).len(),
        stats.total == jobs.len(),
{
    law_count(jobs, |j: JobView| j.status == JobStatus::Pending, JobStatus::Pending);
    law_count(jobs, |j: JobView| j.status == JobStatus::Running, JobStatus::Running);
    law_count(jobs, |j: JobView| j.status == JobStatus::Completed, JobStatus::Completed);
    law_count(jobs, |j: JobView| j.status == JobStatus::Failed, JobStatus::Failed);
    law_count(jobs, |j: JobView| j.status == JobStatus::Cancelled, JobStatus::Cancelled);
    law_count(jobs, |j: JobView| j.status == JobStatus::TimedOut, JobStatus::TimedOut);
}

/// The count of a status is the number of jobs that have it.
pub proof fn law_count(jobs: Seq<JobView>, has: spec_fn(JobView) -> bool, status: JobStatus)
    requires
        forall|j: JobView| #[trigger] has(j) <==> j.status == status,
    ensures
        count(jobs, status) == jobs.filter(has).len(),
    decreases jobs.len(),
{
    reveal(Seq::filter);
    if jobs.len() > 0 {
        law_count(jobs.drop_last(), has, status);
        assert(has(jobs.last()) <==> jobs.last().status == status);
    }
}

/// The job that a request asks for has the request's name and command, whatever they are, its
/// priority or 9 if that is lower, and its time limit: 300 seconds for zero, and at most 3600. It
/// waits, was submitted now, and has run neither to a result nor at all.
pub proof fn law_request(req: SubmitRequest, id: u128, now: Timestamp)
    ensures
        ({
            let job = requested_job(req, id, now);
            &&& job.id == id
            &&& job.name == req.name@
            &&& job.command == req.command@
            &&& req.priority <= 9 ==> job.priority == req.priority
            &&& req.priority > 9 ==> job.priority == 9
            &&& req.timeout_secs == 0 ==> job.timeout_secs == 300
            &&& 1 <= req.timeout_secs <= 3600 ==> job.timeout_secs == req.timeout_secs
            &&& req.timeout_secs > 3600 ==> job.timeout_secs == 3600
            &&& job.status == JobStatus::Pending
            &&& job.submitted_at == now
            &&& job.exit_code is None && job.stdout is None && job.stderr is None
            &&& job.started_at is None && job.completed_at is None
        }),
{
}

/// Limits on what a request asks for, on their own.
pub proof fn law_limits(priority: u8, timeout_secs: u64)
    ensures
        priority <= 9 ==> limited_priority(priority) == priority,
        priority > 9 ==> limited_priority(priority) == 9,
        timeout_secs == 0 ==> limited_timeout(timeout_secs) == 300,
        1 <= timeout_secs <= 3600 ==> limited_timeout(timeout_secs) == timeout_secs,
        timeout_secs > 3600 ==> limited_timeout(timeout_secs) == 3600,
{
}

/// A reply tells of the job that was created: by its identifier and its time limit.
pub proof fn law_created(reply: (u16, SubmitResponse), job: JobView)
    ensures
        created(reply, job) <==> reply.0 == 201 && reply.1.id == job.id && reply.1.timeout_secs
            == job.timeout_secs && reply.1.message@ == "Job submitted"@,
{
}

/// The messages of refusals name the job, and the status that a job has instead of waiting.
pub proof fn law_refusal_texts(id: u128)
    ensures
        not_found_text(id) == "Job "@ + job_id::id_text(id) + " not found"@,
        conflict_text(id, JobStatus::Pending) == "Job "@ + job_id::id_text(id) + " is "@
            + "Pending"@ + ", can only cancel pending jobs"@,
        conflict_text(id, JobStatus::Running) == "Job "@ + job_id::id_text(id) + " is "@
            + "Running"@ + ", can only cancel pending jobs"@,
        conflict_text(id, JobStatus::Completed) == "Job "@ + job_id::id_text(id) + " is "@
            + "Completed"@ + ", can only cancel pending jobs"@,
        conflict_text(id, JobStatus::Failed) == "Job "@ + job_id::id_text(id) + " is "@
            + "Failed"@ + ", can only cancel pending jobs"@,
        conflict_text(id, JobStatus::Cancelled) == "Job "@ + job_id::id_text(id) + " is "@
            + "Cancelled"@ + ", can only cancel pending jobs"@,
        conflict_text(id, JobStatus::TimedOut) == "Job "@ + job_id::id_text(id) + " is "@
            + "TimedOut"@ + ", can only cancel pending jobs"@,
{
}

/// The reply to a request to cancel: an unknown job is not found, a job that does not wait is a
/// conflict, and one that waits is cancelled.
pub proof fn law_cancel_reply(
    reply: Result<CancelResponse, (u16, ErrorResponse)>,
    id: u128,
    job: JobView,
)
    ensures
        is_cancel_reply(reply, id, None) ==> reply is Err && reply->Err_0.0 == 404
            && reply->Err_0.1.error@ == "Job "@ + job_id::id_text(id) + " not found"@,
        is_cancel_reply(reply, id, Some(job)) && job.status != JobStatus::Pending ==> reply is Err
            && reply->Err_0.0 == 409 && reply->Err_0.1.error@ == conflict_text(id, job.status),
        is_cancel_reply(reply, id, Some(job)) && job.status == JobStatus::Pending ==> reply is Ok
            && reply->Ok_0.id == id && reply->Ok_0.message@ == "Job cancelled"@,
{
}

} // verus!
