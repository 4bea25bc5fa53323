//! The scheduler's state: the jobs, the queue of those that wait, and the count of those that
//! run.

use vstd::prelude::*;
use crate::history;
use crate::job::{Job, JobStatus, JobView, PendingJob};
use crate::queue;
use crate::queue::PendingQueue;
use crate::run;
use crate::run::{RunOutcome, RunResult, RunResultView};
use crate::time::{utc_now, Timestamp};

verus! {

/// The scheduler's state. The jobs stand in the order of their submission.
pub struct SchedulerInner {
    pub jobs: Vec<Job>,
    pub queue: PendingQueue,
    pub running_count: usize,
    pub concurrency_limit: usize,
    pub max_history: usize,
}

/// The value of the scheduler's state.
#[verifier::ext_equal]
pub struct SchedulerView {
    pub jobs: Seq<JobView>,
    pub queue: Seq<PendingJob>,
    pub running_count: nat,
    pub concurrency_limit: nat,
    pub max_history: nat,
}

impl View for SchedulerInner {
    type V = SchedulerView;

    open spec fn view(&self) -> SchedulerView {
        SchedulerView {
            jobs: history::values(self.jobs@),
            queue: self.queue@,
            running_count: self.running_count as nat,
            concurrency_limit: self.concurrency_limit as nat,
            max_history: self.max_history as nat,
        }
    }
}

/// The identifiers of a list of jobs.
pub open spec fn ids(jobs: Seq<JobView>) -> Seq<u128> {
    jobs.map_values(|j: JobView| j.id)
}

/// Where the first job with an identifier stands.
pub open spec fn position(jobs: Seq<JobView>, id: u128) -> Option<int> {
    ids(jobs).index_of_first(id)
}

/// Whether a job with an identifier waits to be run.
pub open spec fn waits(jobs: Seq<JobView>, id: u128) -> bool {
    exists|i: int| 0 <= i < jobs.len() && (#[trigger] jobs[i]).id == id && jobs[i].status is Pending
}

/// The entries that are left of a queue once those at its end whose jobs no longer wait are
/// gone.
pub open spec fn without_stale(jobs: Seq<JobView>, q: Seq<PendingJob>) -> Seq<PendingJob>
    decreases q.len(),
{
    if q.len() == 0 || waits(jobs, q.last().id) {
        q
    } else {
        without_stale(jobs, q.drop_last())
    }
}

/// What [`position`] returns is the first place of the identifier.
pub proof fn lemma_position(jobs: Seq<JobView>, id: u128)
    ensures
        match position(jobs, id) {
            Some(i) => {
                &&& 0 <= i < jobs.len()
                &&& jobs[i].id == id
                &&& forall|j: int| 0 <= j < i ==> (#[trigger] jobs[j]).id != id
            },
            None => forall|j: int| 0 <= j < jobs.len() ==> (#[trigger] jobs[j]).id != id,
        },
{
    let s = ids(jobs);
    s.index_of_first_ensures(id);
    assert forall|j: int| 0 <= j < jobs.len() implies (#[trigger] jobs[j]).id == s[j] by {}
    if position(jobs, id) is None {
        assert forall|j: int| 0 <= j < jobs.len() implies (#[trigger] jobs[j]).id != id by {
            assert(s[j] == jobs[j].id);
        }
    }
}

/// The first place of an identifier is what [`position`] returns.
pub proof fn lemma_position_is(jobs: Seq<JobView>, id: u128, i: int)
    requires
        0 <= i < jobs.len(),
        jobs[i].id == id,
        forall|j: int| 0 <= j < i ==> (#[trigger] jobs[j]).id != id,
    ensures
        position(jobs, id) == Some(i),
{
    lemma_position(jobs, id);
}

impl SchedulerView {
    /// The state before the first job.
    pub open spec fn initial(concurrency_limit: nat, max_history: nat) -> SchedulerView {
        SchedulerView {
            jobs: Seq::empty(),
            queue: Seq::empty(),
            running_count: 0,
            concurrency_limit,
            max_history,
        }
    }

    /// The job with an identifier; of several, the first.
    pub open spec fn job(self, id: u128) -> Option<JobView> {
        match position(self.jobs, id) {
            Some(i) => Some(self.jobs[i]),
            None => None,
        }
    }

    /// The state with a job put in the place of the first job with an identifier.
    pub open spec fn with_job(self, id: u128, job: JobView) -> SchedulerView {
        match position(self.jobs, id) {
            Some(i) => SchedulerView { jobs: self.jobs.update(i, job), ..self },
            None => self,
        }
    }

    /// The state after a job was submitted: it stands at the end of the jobs and in the queue.
    pub open spec fn submitted(self, job: JobView) -> SchedulerView {
        SchedulerView {
            jobs: self.jobs.push(job),
            queue: queue::with_entry(self.queue, job.entry()),
            ..self
        }
    }

    /// The state after a request to cancel a job: one that waits is cancelled and leaves the
    /// queue, any other stays as it is.
    pub open spec fn cancelled(self, id: u128, now: Timestamp) -> SchedulerView {
        match self.job(id) {
            Some(job) if job.status is Pending => SchedulerView {
                queue: queue::without_job(self.queue, id),
                ..self.with_job(
                    id,
                    JobView { status: JobStatus::Cancelled, completed_at: Some(now), ..job },
                )
            },
            _ => self,
        }
    }

    /// The job that is to run next: none while as many jobs run as may, or when no queued job
    /// waits any more, else the one of the highest-ranking entry whose job waits.
    pub open spec fn next(self) -> Option<u128> {
        let q = without_stale(self.jobs, self.queue);
        if self.running_count >= self.concurrency_limit || q.len() == 0 {
            None
        } else {
            Some(q.last().id)
        }
    }

    /// The state after the next job was taken out of the queue.
    pub open spec fn taken(self) -> SchedulerView {
        let q = without_stale(self.jobs, self.queue);
        if self.running_count >= self.concurrency_limit {
            self
        } else if q.len() == 0 {
            SchedulerView { queue: q, ..self }
        } else {
            SchedulerView { queue: q.drop_last(), ..self }
        }
    }

    /// The state after a job was marked as running.
    pub open spec fn started(self, id: u128, now: Timestamp) -> SchedulerView {
        let counted = SchedulerView { running_count: self.running_count + 1, ..self };
        match self.job(id) {
            Some(job) => counted.with_job(
                id,
                JobView { status: JobStatus::Running, started_at: Some(now), ..job },
            ),
            None => counted,
        }
    }

    /// The state after the next job, if there is one, was taken out of the queue and marked as
    /// running.
    pub open spec fn dispatched(self, now: Timestamp) -> SchedulerView {
        match self.next() {
            Some(id) => self.taken().started(id, now),
            None => self.taken(),
        }
    }

    /// The state with its history cut down to the limit.
    pub open spec fn limited(self) -> SchedulerView {
        SchedulerView { jobs: history::limited(self.jobs, self.max_history), ..self }
    }

    /// The state after the run of a job came to a result: one job fewer runs, the job has the
    /// result, and the history is cut down to its limit.
    pub open spec fn completed(self, id: u128, result: RunResultView, now: Timestamp) -> SchedulerView {
        let counted = SchedulerView {
            running_count: if self.running_count == 0 {
                0
            } else {
                (self.running_count - 1) as nat
            },
            ..self
        };
        match self.job(id) {
            Some(job) => counted.with_job(id, run::completed_job(job, result, now)),
            None => counted,
        }.limited()
    }
}

impl SchedulerInner {
    /// The queue's entries stand in ascending rank.
    pub open spec fn wf(&self) -> bool {
        self.queue.wf()
    }

    /// A scheduler without jobs, which runs at most `concurrency_limit` jobs at a time. When a
    /// job ends and there are more than `max_history` jobs, the oldest finished ones are
    /// forgotten; zero means that none ever is.
    pub fn new(concurrency_limit: usize, max_history: usize) -> (res: SchedulerInner)
        ensures
            res.wf(),
            res@ == SchedulerView::initial(concurrency_limit as nat, max_history as nat),
    {
        SchedulerInner {
            jobs: Vec::new(),
            queue: PendingQueue::new(),
            running_count: 0,
            concurrency_limit,
            max_history,
        }
    }

    /// Finds the first job with an identifier.
    pub fn find(&self, id: u128) -> (res: Option<usize>)
        ensures
            match res {
                Some(i) => {
                    &&& position(self@.jobs, id) == Some(i as int)
                    &&& i < self.jobs@.len()
                    &&& self.jobs@[i as int]@ == self@.jobs[i as int]
                },
                None => position(self@.jobs, id) is None,
            },
    {
        let ghost vs = self@.jobs;
        let mut k: usize = 0;
        while k < self.jobs.len()
            invariant
                k <= self.jobs@.len(),
                vs == self@.jobs,
                forall|j: int| 0 <= j < k ==> (#[trigger] vs[j]).id != id,
            decreases self.jobs@.len() - k,
        {
            assert(vs[k as int] == self.jobs@[k as int]@);
            if self.jobs[k].id == id {
                proof {
                    lemma_position_is(vs, id, k as int);
                }
                return Some(k);
            }
            k = k + 1;
        }
        proof {
            lemma_position(vs, id);
        }
        None
    }

    /// Adds a job, at the end of the jobs and to the queue.
    pub fn enqueue(&mut self, job: Job)
        requires
            old(self).wf(),
        ensures
            final(self).wf(),
            final(self)@ == old(self)@.submitted(job@),
    {
        let entry = PendingJob {
            id: job.id,
            priority: job.priority,
            submitted_at: job.submitted_at,
        };
        self.jobs.push(job);
        self.queue.push(entry);
        assert(self@.jobs == old(self)@.jobs.push(job@));
    }

    /// Whether a job with an identifier waits to be run.
    fn is_waiting(&self, id: u128) -> (res: bool)
        ensures
            res == waits(self@.jobs, id),
    {
        let ghost vs = self@.jobs;
        let mut k: usize = 0;
        while k < self.jobs.len()
            invariant
                k <= self.jobs@.len(),
                vs == self@.jobs,
                forall|j: int|
                    0 <= j < k ==> !((#[trigger] vs[j]).id == id && vs[j].status is Pending),
            decreases self.jobs@.len() - k,
        {
            assert(vs[k as int] == self.jobs@[k as int]@);
            if self.jobs[k].id == id && self.jobs[k].status == JobStatus::Pending {
                return true;
            }
            k = k + 1;
        }
        false
    }

    /// Takes the job that is to run next out of the queue, if one may run. Entries of jobs that
    /// no longer wait are skipped.
    pub fn next_job(&mut self) -> (res: Option<u128>)
        requires
            old(self).wf(),
        ensures
            final(self).wf(),
            res == old(self)@.next(),
            final(self)@ == old(self)@.taken(),
    {
        if self.running_count >= self.concurrency_limit {
            return None;
        }
        loop
            invariant
                self.wf(),
                self.jobs == old(self).jobs,
                self.running_count == old(self).running_count,
                self.concurrency_limit == old(self).concurrency_limit,
                self.max_history == old(self).max_history,
                self.running_count < self.concurrency_limit,
                without_stale(self@.jobs, self@.queue) == without_stale(
                    old(self)@.jobs,
                    old(self)@.queue,
                ),
            decreases self@.queue.len(),
        {
            match self.queue.pop() {
                Some(entry) => {
                    if self.is_waiting(entry.id) {
                        return Some(entry.id);
                    }
                },
                None => {
                    return None;
                },
            }
        }
    }

    /// Marks a job as running since `now` and counts it.
    pub fn mark_running(&mut self, id: u128, now: Timestamp)
        requires
            old(self).running_count < usize::MAX,
        ensures
            final(self)@ == old(self)@.started(id, now),
            final(self).queue == old(self).queue,
    {
        let place = self.find(id);
        if let Some(i) = place {
            self.jobs[i].status = JobStatus::Running;
            self.jobs[i].started_at = Some(now);
        }
        self.running_count = self.running_count + 1;
        assert(self@.jobs =~= old(self)@.started(id, now).jobs);
    }

    /// Takes the job that is to run next, if one may run, out of the queue and marks it as
    /// running since the present moment.
    pub fn dispatch(&mut self) -> (res: Option<u128>)
        requires
            old(self).wf(),
        ensures
            final(self).wf(),
            res == old(self)@.next(),
            exists|now: Timestamp|
                now.valid() && final(self)@ == #[trigger] old(self)@.dispatched(now),
    {
        let next = self.next_job();
        let now = utc_now();
        if let Some(id) = next {
            self.mark_running(id, now);
        }
        assert(self@ == old(self)@.dispatched(now));
        next
    }

    /// The command and the time limit of a job that is to be run.
    pub fn launch(&self, id: u128) -> (res: Option<(String, u64)>)
        ensures
            match (res, self@.job(id)) {
                (Some(r), Some(job)) => r.0@ == job.command && r.1 == job.timeout_secs,
                (None, None) => true,
                _ => false,
            },
    {
        match self.find(id) {
            Some(i) => Some((self.jobs[i].command.clone(), self.jobs[i].timeout_secs)),
            None => None,
        }
    }

    /// Enters the result of a job's run as of `now`, counts one running job fewer, and cuts the
    /// history down to its limit.
    pub fn complete_at(&mut self, id: u128, result: RunResult, now: Timestamp)
        ensures
            final(self)@ == old(self)@.completed(id, result@, now),
            final(self).queue == old(self).queue,
    {
        self.running_count = self.running_count.saturating_sub(1);
        let place = self.find(id);
        if let Some(i) = place {
            run::complete(&mut self.jobs[i], result, now);
        }
        let ghost counted = SchedulerView {
            running_count: self.running_count as nat,
            ..old(self)@
        };
        assert(self@.jobs =~= (match old(self)@.job(id) {
            Some(job) => counted.with_job(id, run::completed_job(job, result@, now)),
            None => counted,
        }).jobs);
        evict_old_jobs(self);
    }

    /// Enters what the run of a job with the given time limit came to, as of the present moment,
    /// counts one running job fewer, and cuts the history down to its limit.
    pub fn finish_job(&mut self, id: u128, outcome: RunOutcome, timeout_secs: u64)
        ensures
            exists|now: Timestamp|
                now.valid() && final(self)@ == #[trigger] old(self)@.completed(
                    id,
                    run::result_of(outcome, timeout_secs),
                    now,
                ),
            final(self).queue == old(self).queue,
    {
        let result = run::run_result(outcome, timeout_secs);
        let now = utc_now();
        self.complete_at(id, result, now);
    }

    /// Cancels a job that waits as of `now` and takes it out of the queue; any other job stays
    /// as it is. Returns the status that the job had, or nothing where there is no such job.
    pub fn cancel_at(&mut self, id: u128, now: Timestamp) -> (res: Option<JobStatus>)
        requires
            old(self).wf(),
        ensures
            final(self).wf(),
            final(self)@ == old(self)@.cancelled(id, now),
            match old(self)@.job(id) {
                Some(job) => res == Some(job.status),
                None => res is None,
            },
    {
        match self.find(id) {
            Some(i) => {
                let status = self.jobs[i].status;
                if status == JobStatus::Pending {
                    self.jobs[i].status = JobStatus::Cancelled;
                    self.jobs[i].completed_at = Some(now);
                    self.queue.remove_job(id);
                    assert(self@.jobs =~= old(self)@.cancelled(id, now).jobs);
                }
                Some(status)
            },
            None => None,
        }
    }
}

/// Removes the oldest finished jobs while there are more jobs than the history may hold.
pub fn evict_old_jobs(inner: &mut SchedulerInner)
    ensures
        final(inner)@ == old(inner)@.limited(),
        final(inner).queue == old(inner).queue,
{
    let max_history = inner.max_history;
    history::limit_history(&mut inner.jobs, max_history);
}

// What the transitions do.

/// The value of the scheduler's state shows each of its fields as it is.
pub proof fn law_scheduler_view(s: SchedulerInner)
    ensures
        s@.jobs.len() == s.jobs@.len(),
        forall|i: int| 0 <= i < s.jobs@.len() ==> #[trigger] s@.jobs[i] == s.jobs@[i]@,
        s@.queue == s.queue@,
        s@.running_count == s.running_count,
        s@.concurrency_limit == s.concurrency_limit,
        s@.max_history == s.max_history,
{
}

/// A scheduler starts with the limits that it is given, without jobs, and with nothing running.
pub proof fn law_initial(concurrency_limit: nat, max_history: nat)
    ensures
        ({
            let s = SchedulerView::initial(concurrency_limit, max_history);
            &&& s.jobs.len() == 0
            &&& s.queue.len() == 0
            &&& s.running_count == 0
            &&& s.concurrency_limit == concurrency_limit
            &&& s.max_history == max_history
        }),
{
}

/// The job that is found under an identifier is the first that has it; none is found exactly if
/// no job has it.
pub proof fn law_job(s: SchedulerView, id: u128)
    ensures
        match s.job(id) {
            Some(job) => exists|i: int|
                {
                    &&& 0 <= i < s.jobs.len()
                    &&& #[trigger] s.jobs[i] == job
                    &&& job.id == id
                    &&& forall|j: int| 0 <= j < i ==> (#[trigger] s.jobs[j]).id != id
                },
            None => forall|j: int| 0 <= j < s.jobs.len() ==> (#[trigger] s.jobs[j]).id != id,
        },
{
    lemma_position(s.jobs, id);
    if s.job(id) is Some {
        let i = position(s.jobs, id)->0;
        assert(s.jobs[i] == s.job(id)->0);
    }
}

/// Submitting a job puts it behind all other jobs, and its entry at its place in the queue; the
/// other jobs and entries, the count and the limits stay.
pub proof fn law_submitted(s: SchedulerView, job: JobView) -> (p: int)
    requires
        queue::ascending(s.queue),
    ensures
        s.submitted(job).jobs == s.jobs.push(job),
        0 <= p <= s.queue.len(),
        s.submitted(job).queue == s.queue.take(p) + seq![
            PendingJob { id: job.id, priority: job.priority, submitted_at: job.submitted_at },
        ] + s.queue.skip(p),
        s.submitted(job).running_count == s.running_count,
        s.submitted(job).concurrency_limit == s.concurrency_limit,
        s.submitted(job).max_history == s.max_history,
{
    queue::law_with_entry(s.queue, job.entry())
}

/// Cancelling touches the first job with the identifier alone, and that only where it waits: then
/// it is cancelled as of now, and the entries under its identifier leave the queue. The count and
/// the limits stay.
pub proof fn law_cancelled(s: SchedulerView, i: int, id: u128, now: Timestamp)
    requires
        0 <= i < s.jobs.len(),
        s.jobs[i].id == id,
        forall|j: int| 0 <= j < i ==> (#[trigger] s.jobs[j]).id != id,
    ensures
        s.jobs[i].status == JobStatus::Pending ==> {
            &&& s.cancelled(id, now).jobs == s.jobs.update(
                i,
                JobView { status: JobStatus::Cancelled, completed_at: Some(now), ..s.jobs[i] },
            )
            &&& s.cancelled(id, now).queue == s.queue.filter(|e: PendingJob| e.id != id)
        },
        s.jobs[i].status != JobStatus::Pending ==> s.cancelled(id, now) == s,
        s.cancelled(id, now).running_count == s.running_count,
        s.cancelled(id, now).concurrency_limit == s.concurrency_limit,
        s.cancelled(id, now).max_history == s.max_history,
{
    lemma_position_is(s.jobs, id, i);
}

/// Marking a job as running touches the first job with the identifier alone and counts one more.
pub proof fn law_started(s: SchedulerView, i: int, id: u128, now: Timestamp)
    requires
        0 <= i < s.jobs.len(),
        s.jobs[i].id == id,
        forall|j: int| 0 <= j < i ==> (#[trigger] s.jobs[j]).id != id,
    ensures
        s.started(id, now).jobs == s.jobs.update(
            i,
            JobView { status: JobStatus::Running, started_at: Some(now), ..s.jobs[i] },
        ),
        s.started(id, now).running_count == s.running_count + 1,
        s.started(id, now).queue == s.queue,
        s.started(id, now).concurrency_limit == s.concurrency_limit,
        s.started(id, now).max_history == s.max_history,
{
    lemma_position_is(s.jobs, id, i);
}

/// Which job is next: none, and nothing changes, while as many jobs run as may. Else it is the one
/// of the last entry `k` under whose identifier some job waits, and the queue is left with the
/// entries before that one; where there is no such entry none is next, and the queue is left
/// empty. Nothing else changes.
pub proof fn law_next(s: SchedulerView) -> (k: int)
    ensures
        s.running_count >= s.concurrency_limit ==> s.next() is None && s.taken() == s,
        s.running_count < s.concurrency_limit ==> {
            &&& -1 <= k < s.queue.len()
            &&& forall|l: int, i: int|
                k < l < s.queue.len() && 0 <= i < s.jobs.len() && (#[trigger] s.jobs[i]).id == (
                #[trigger] s.queue[l]).id ==> s.jobs[i].status != JobStatus::Pending
            &&& k < 0 ==> s.next() is None && s.taken().queue.len() == 0
            &&& k >= 0 ==> {
                &&& s.next() == Some(s.queue[k].id)
                &&& s.taken().queue == s.queue.take(k)
                &&& exists|i: int|
                    0 <= i < s.jobs.len() && (#[trigger] s.jobs[i]).id == s.queue[k].id
                        && s.jobs[i].status == JobStatus::Pending
            }
        },
        s.taken().jobs == s.jobs,
        s.taken().running_count == s.running_count,
        s.taken().concurrency_limit == s.concurrency_limit,
        s.taken().max_history == s.max_history,
{
    lemma_without_stale(s.jobs, s.queue);
    let n = without_stale(s.jobs, s.queue).len() as int;
    if s.running_count < s.concurrency_limit {
        assert forall|l: int, i: int|
            n - 1 < l < s.queue.len() && 0 <= i < s.jobs.len() && (#[trigger] s.jobs[i]).id == (
            #[trigger] s.queue[l]).id implies s.jobs[i].status != JobStatus::Pending by {
            assert(!waits(s.jobs, s.queue[l].id));
        }
        if n > 0 {
            assert(s.queue.take(n).drop_last() == s.queue.take(n - 1));
        }
    }
    n - 1
}

/// What is left of a queue without its stale end is a first part of it, whose last job waits, and
/// no job of the rest does.
proof fn lemma_without_stale(jobs: Seq<JobView>, q: Seq<PendingJob>)
    ensures
        ({
            let r = without_stale(jobs, q);
            &&& r.len() <= q.len()
            &&& r == q.take(r.len() as int)
            &&& r.len() > 0 ==> waits(jobs, r.last().id)
            &&& forall|l: int| r.len() <= l < q.len() ==> !waits(jobs, (#[trigger] q[l]).id)
        }),
    decreases q.len(),
{
    let r = without_stale(jobs, q);
    if q.len() == 0 || waits(jobs, q.last().id) {
        assert(q.take(q.len() as int) == q);
    } else {
        lemma_without_stale(jobs, q.drop_last());
        assert(q.drop_last().take(r.len() as int) == q.take(r.len() as int));
        assert forall|l: int| r.len() <= l < q.len() implies !waits(jobs, (#[trigger] q[l]).id) by {
            if l < q.len() - 1 {
                assert(q.drop_last()[l] == q[l]);
            }
        }
    }
}

/// Dispatching takes the next job out of the queue and marks it as running; without a next job it
/// leaves the jobs and the count alone.
pub proof fn law_dispatched(s: SchedulerView, i: int, now: Timestamp)
    ensures
        s.next() is None ==> s.dispatched(now) == s.taken(),
        s.next() is Some && 0 <= i < s.jobs.len() && s.jobs[i].id == s.next()->0 && (forall|j: int|
            0 <= j < i ==> (#[trigger] s.jobs[j]).id != s.next()->0) ==> {
            &&& s.dispatched(now).jobs == s.jobs.update(
                i,
                JobView { status: JobStatus::Running, started_at: Some(now), ..s.jobs[i] },
            )
            &&& s.dispatched(now).running_count == s.running_count + 1
        },
        s.dispatched(now).queue == s.taken().queue,
        s.dispatched(now).concurrency_limit == s.concurrency_limit,
        s.dispatched(now).max_history == s.max_history,
{
    if s.next() is Some && 0 <= i < s.jobs.len() && s.jobs[i].id == s.next()->0 && (forall|j: int|
        0 <= j < i ==> (#[trigger] s.jobs[j]).id != s.next()->0) {
        lemma_position_is(s.jobs, s.next()->0, i);
    }
}

/// Entering a result counts one running job fewer, touches the first job with the identifier alone
/// and then cuts the history down to its limit. The queue and the limits stay.
pub proof fn law_result_entered(
    s: SchedulerView,
    i: int,
    id: u128,
    result: RunResultView,
    now: Timestamp,
)
    requires
        0 <= i < s.jobs.len(),
        s.jobs[i].id == id,
        forall|j: int| 0 <= j < i ==> (#[trigger] s.jobs[j]).id != id,
    ensures
        s.completed(id, result, now).jobs == history::limited(
            s.jobs.update(i, run::completed_job(s.jobs[i], result, now)),
            s.max_history,
        ),
        s.running_count > 0 ==> s.completed(id, result, now).running_count == s.running_count - 1,
        s.running_count == 0 ==> s.completed(id, result, now).running_count == 0,
        s.completed(id, result, now).queue == s.queue,
        s.completed(id, result, now).concurrency_limit == s.concurrency_limit,
        s.completed(id, result, now).max_history == s.max_history,
{
    lemma_position_is(s.jobs, id, i);
}

/// What is done under an identifier that no job has changes no job: a request to cancel changes
/// nothing, and marking as running and entering a result change the count alone, but for the
/// history, which is cut down.
pub proof fn law_unknown_job(s: SchedulerView, id: u128, result: RunResultView, now: Timestamp)
    requires
        forall|j: int| 0 <= j < s.jobs.len() ==> (#[trigger] s.jobs[j]).id != id,
    ensures
        s.cancelled(id, now) == s,
        s.started(id, now) == (SchedulerView { running_count: s.running_count + 1, ..s }),
        s.completed(id, result, now) == (SchedulerView {
            running_count: if s.running_count == 0 {
                0
            } else {
                (s.running_count - 1) as nat
            },
            jobs: history::limited(s.jobs, s.max_history),
            ..s
        }),
{
    lemma_position(s.jobs, id);
}

/// Cutting the history down touches the jobs alone.
pub proof fn law_eviction_frame(s: SchedulerView)
    ensures
        s.limited().jobs == history::limited(s.jobs, s.max_history),
        s.limited().queue == s.queue,
        s.limited().running_count == s.running_count,
        s.limited().concurrency_limit == s.concurrency_limit,
        s.limited().max_history == s.max_history,
{
}

} // verus!
