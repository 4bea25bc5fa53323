//! Jobs and their entries in the queue.

use core::cmp::Ordering;
use vstd::prelude::*;
use crate::time::Timestamp;

verus! {

/// Where a job stands in its life.
#[derive(Debug, Clone, Copy, PartialEq, Eq, Structural)]
pub enum JobStatus {
    Pending,
    Running,
    Completed,
    Failed,
    Cancelled,
    TimedOut,
}

impl JobStatus {
    /// Whether the job's life has ended.
    pub open spec fn finished(self) -> bool {
        self is Completed || self is Failed || self is Cancelled || self is TimedOut
    }

    /// Whether the job's life has ended.
    pub fn is_finished(&self) -> (res: bool)
        ensures
            res == self.finished(),
    {
        match self {
            JobStatus::Completed
            | JobStatus::Failed
            | JobStatus::Cancelled
            | JobStatus::TimedOut => true,
            _ => false,
        }
    }

    /// The name of the status, as error messages give it.
    pub open spec fn name_text(self) -> Seq<char> {
        match self {
            JobStatus::Pending => "Pending"@,
            JobStatus::Running => "Running"@,
            JobStatus::Completed => "Completed"@,
            JobStatus::Failed => "Failed"@,
            JobStatus::Cancelled => "Cancelled"@,
            JobStatus::TimedOut => "TimedOut"@,
        }
    }

    /// The name of the status, as error messages give it.
    pub fn name(&self) -> (res: &'static str)
        ensures
            res@ == self.name_text(),
    {
        match self {
            JobStatus::Pending => "Pending",
            JobStatus::Running => "Running",
            JobStatus::Completed => "Completed",
            JobStatus::Failed => "Failed",
            JobStatus::Cancelled => "Cancelled",
            JobStatus::TimedOut => "TimedOut",
        }
    }

    /// The name of the status in lower case, as the job table gives it.
    pub open spec fn label_text(self) -> Seq<char> {
        match self {
            JobStatus::Pending => "pending"@,
            JobStatus::Running => "running"@,
            JobStatus::Completed => "completed"@,
            JobStatus::Failed => "failed"@,
            JobStatus::Cancelled => "cancelled"@,
            JobStatus::TimedOut => "timedout"@,
        }
    }

    /// The name of the status in lower case, as the job table gives it.
    pub fn label(&self) -> (res: &'static str)
        ensures
            res@ == self.label_text(),
    {
        match self {
            JobStatus::Pending => "pending",
            JobStatus::Running => "running",
            JobStatus::Completed => "completed",
            JobStatus::Failed => "failed",
            JobStatus::Cancelled => "cancelled",
            JobStatus::TimedOut => "timedout",
        }
    }
}

/// A job, with all that is known of it.
#[derive(Debug)]
pub struct Job {
    pub id: u128,
    pub name: String,
    pub command: String,
    pub priority: u8,
    pub status: JobStatus,
    pub exit_code: Option<i32>,
    pub stdout: Option<String>,
    pub stderr: Option<String>,
    pub submitted_at: Timestamp,
    pub started_at: Option<Timestamp>,
    pub completed_at: Option<Timestamp>,
    pub timeout_secs: u64,
}

/// The value of a job: its texts are sequences of characters.
#[verifier::ext_equal]
pub struct JobView {
    pub id: u128,
    pub name: Seq<char>,
    pub command: Seq<char>,
    pub priority: u8,
    pub status: JobStatus,
    pub exit_code: Option<i32>,
    pub stdout: Option<Seq<char>>,
    pub stderr: Option<Seq<char>>,
    pub submitted_at: Timestamp,
    pub started_at: Option<Timestamp>,
    pub completed_at: Option<Timestamp>,
    pub timeout_secs: u64,
}

/// The characters of an optional text.
pub open spec fn optional_text(s: Option<String>) -> Option<Seq<char>> {
    match s {
        Some(t) => Some(t@),
        None => None,
    }
}

impl View for Job {
    type V = JobView;

    open spec fn view(&self) -> JobView {
        JobView {
            id: self.id,
            name: self.name@,
            command: self.command@,
            priority: self.priority,
            status: self.status,
            exit_code: self.exit_code,
            stdout: optional_text(self.stdout),
            stderr: optional_text(self.stderr),
            submitted_at: self.submitted_at,
            started_at: self.started_at,
            completed_at: self.completed_at,
            timeout_secs: self.timeout_secs,
        }
    }
}

fn clone_text(s: &Option<String>) -> (res: Option<String>)
    ensures
        optional_text(res) == optional_text(*s),
{
    match s {
        Some(t) => Some(t.clone()),
        None => None,
    }
}

impl Clone for Job {
    fn clone(&self) -> (res: Self)
        ensures
            res@ == self@,
    {
        Job {
            id: self.id,
            name: self.name.clone(),
            command: self.command.clone(),
            priority: self.priority,
            status: self.status,
            exit_code: self.exit_code,
            stdout: clone_text(&self.stdout),
            stderr: clone_text(&self.stderr),
            submitted_at: self.submitted_at,
            started_at: self.started_at,
            completed_at: self.completed_at,
            timeout_secs: self.timeout_secs,
        }
    }
}

impl JobView {
    /// When the job ended; for a job without such a time, when it was submitted.
    pub open spec fn end_time(self) -> Timestamp {
        match self.completed_at {
            Some(t) => t,
            None => self.submitted_at,
        }
    }

    /// The job's entry in the queue.
    pub open spec fn entry(self) -> PendingJob {
        PendingJob { id: self.id, priority: self.priority, submitted_at: self.submitted_at }
    }
}

impl Job {
    /// When the job ended; for a job without such a time, when it was submitted.
    pub fn end_time(&self) -> (res: Timestamp)
        ensures
            res == self@.end_time(),
    {
        self.completed_at.unwrap_or(self.submitted_at)
    }
}

/// A waiting job's entry in the queue. Of two entries the one with the higher priority ranks
/// above the other; of two with the same priority, the one that was submitted earlier.
#[derive(Debug, Clone, Copy)]
pub struct PendingJob {
    pub id: u128,
    pub priority: u8,
    pub submitted_at: Timestamp,
}

/// How two entries rank.
pub open spec fn pending_order(a: PendingJob, b: PendingJob) -> Ordering {
    if a.priority < b.priority {
        Ordering::Less
    } else if b.priority < a.priority {
        Ordering::Greater
    } else if b.submitted_at.before(a.submitted_at) {
        Ordering::Less
    } else if a.submitted_at.before(b.submitted_at) {
        Ordering::Greater
    } else {
        Ordering::Equal
    }
}

/// The ranking is a total order of ranks: an entry ranks equal to itself, comparing two entries
/// the other way round gives the opposite, and what ranks below an entry ranks below all that do
/// not rank below that entry.
pub proof fn law_pending_order(a: PendingJob, b: PendingJob, c: PendingJob)
    ensures
        pending_order(a, a) == Ordering::Equal,
        pending_order(a, b) == Ordering::Less <==> pending_order(b, a) == Ordering::Greater,
        pending_order(a, b) == Ordering::Equal <==> pending_order(b, a) == Ordering::Equal,
        pending_order(a, b) == Ordering::Less && pending_order(b, c) != Ordering::Greater
            ==> pending_order(a, c) == Ordering::Less,
        pending_order(a, b) == Ordering::Equal ==> pending_order(a, c) == pending_order(b, c),
{
}

impl PendingJob {
    /// How this entry ranks against another.
    pub fn cmp(&self, other: &PendingJob) -> (res: Ordering)
        ensures
            res == pending_order(*self, *other),
    {
        if self.priority < other.priority {
            Ordering::Less
        } else if other.priority < self.priority {
            Ordering::Greater
        } else if other.submitted_at.is_before(&self.submitted_at) {
            Ordering::Less
        } else if self.submitted_at.is_before(&other.submitted_at) {
            Ordering::Greater
        } else {
            Ordering::Equal
        }
    }

    /// Whether this entry ranks below another.
    pub open spec fn below(self, other: PendingJob) -> bool {
        self.priority < other.priority || (self.priority == other.priority
            && other.submitted_at.before(self.submitted_at))
    }

    /// Whether this entry ranks below another.
    pub fn is_below(&self, other: &PendingJob) -> (res: bool)
        ensures
            res == self.below(*other),
    {
        match self.cmp(other) {
            Ordering::Less => true,
            _ => false,
        }
    }
}

/// Two entries are equal when they are of the same job.
impl PartialEq for PendingJob {
    fn eq(&self, other: &PendingJob) -> (res: bool) {
        self.id == other.id
    }
}

impl vstd::std_specs::cmp::PartialEqSpecImpl for PendingJob {
    open spec fn obeys_eq_spec() -> bool {
        true
    }

    open spec fn eq_spec(&self, other: &PendingJob) -> bool {
        self.id == other.id
    }
}

impl Eq for PendingJob {

}

impl PartialOrd for PendingJob {
    fn partial_cmp(&self, other: &PendingJob) -> (res: Option<Ordering>) {
        Some(self.cmp(other))
    }
}

impl vstd::std_specs::cmp::PartialOrdSpecImpl for PendingJob {
    open spec fn obeys_partial_cmp_spec() -> bool {
        true
    }

    open spec fn partial_cmp_spec(&self, other: &PendingJob) -> Option<Ordering> {
        Some(pending_order(*self, *other))
    }
}

// What the values of this module mean.

/// A job's life has ended exactly if it neither waits nor runs.
pub proof fn law_finished(status: JobStatus)
    ensures
        status.finished() <==> status != JobStatus::Pending && status != JobStatus::Running,
{
}

/// Every status is named after itself, and its label is the name in lower case.
pub proof fn law_status_names()
    ensures
        JobStatus::Pending.name_text() == "Pending"@,
        JobStatus::Running.name_text() == "Running"@,
        JobStatus::Completed.name_text() == "Completed"@,
        JobStatus::Failed.name_text() == "Failed"@,
        JobStatus::Cancelled.name_text() == "Cancelled"@,
        JobStatus::TimedOut.name_text() == "TimedOut"@,
        JobStatus::Pending.label_text() == "pending"@,
        JobStatus::Running.label_text() == "running"@,
        JobStatus::Completed.label_text() == "completed"@,
        JobStatus::Failed.label_text() == "failed"@,
        JobStatus::Cancelled.label_text() == "cancelled"@,
        JobStatus::TimedOut.label_text() == "timedout"@,
{
}

/// The value of a job shows each of its fields as it is.
pub proof fn law_job_view(job: Job)
    ensures
        job@.id == job.id,
        job@.name == job.name@,
        job@.command == job.command@,
        job@.priority == job.priority,
        job@.status == job.status,
        job@.exit_code == job.exit_code,
        job.stdout is Some <==> job@.stdout is Some,
        job.stdout is Some ==> job@.stdout->0 == job.stdout->0@,
        job.stderr is Some <==> job@.stderr is Some,
        job.stderr is Some ==> job@.stderr->0 == job.stderr->0@,
        job@.submitted_at == job.submitted_at,
        job@.started_at == job.started_at,
        job@.completed_at == job.completed_at,
        job@.timeout_secs == job.timeout_secs,
{
}

/// A job ended when it was completed, whenever it was submitted or started; without such a time,
/// the time of its submission counts.
pub proof fn law_end_time(job: JobView, t: Timestamp)
    ensures
        job.completed_at == Some(t) ==> job.end_time() == t,
        job.completed_at is None ==> job.end_time() == job.submitted_at,
{
}

/// A job's entry carries its identifier, its priority and the time of its submission.
pub proof fn law_entry(job: JobView)
    ensures
        job.entry().id == job.id,
        job.entry().priority == job.priority,
        job.entry().submitted_at == job.submitted_at,
{
}

/// The higher priority ranks above the lower. At equal priority the earlier submission ranks above
/// the later: the one with fewer seconds, or with as many seconds and fewer nanoseconds. Entries
/// rank equal only where they agree in all of this, whichever jobs they are of.
pub proof fn law_ranking(a: PendingJob, b: PendingJob)
    ensures
        a.priority < b.priority ==> a.below(b) && !b.below(a) && pending_order(a, b)
            == Ordering::Less,
        a.priority > b.priority ==> !a.below(b) && pending_order(a, b) == Ordering::Greater,
        a.priority == b.priority && (a.submitted_at.secs > b.submitted_at.secs || (
        a.submitted_at.secs == b.submitted_at.secs && a.submitted_at.nanos > b.submitted_at.nanos))
            ==> a.below(b) && !b.below(a) && pending_order(a, b) == Ordering::Less,
        a.priority == b.priority && (a.submitted_at.secs < b.submitted_at.secs || (
        a.submitted_at.secs == b.submitted_at.secs && a.submitted_at.nanos < b.submitted_at.nanos))
            ==> !a.below(b) && pending_order(a, b) == Ordering::Greater,
        a.priority == b.priority && a.submitted_at.secs == b.submitted_at.secs
            && a.submitted_at.nanos == b.submitted_at.nanos ==> !a.below(b) && pending_order(a, b)
            == Ordering::Equal,
{
}

} // verus!
