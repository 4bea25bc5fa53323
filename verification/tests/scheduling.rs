use std::cmp::Ordering;

use npu_sched::api::{
    cancel_at, cancel_job_handler, default_priority, default_timeout, get_job_handler,
    health_handler, limit_priority, limit_timeout, list_jobs_handler, status_handler, submit_at, submit_handler, QueueStats,
    SubmitRequest,
};
use npu_sched::job::{Job, JobStatus, PendingJob};
use npu_sched::npu::{check_npu_status, NpuProbe};
use npu_sched::queue::PendingQueue;
use npu_sched::run::{RunOutcome, RunResult};
use npu_sched::scheduler::{evict_old_jobs, SchedulerInner};
use npu_sched::time::Timestamp;

fn at(secs: i64) -> Timestamp {
    Timestamp { secs, nanos: 0 }
}

fn entry(id: u128, priority: u8, secs: i64) -> PendingJob {
    PendingJob { id, priority, submitted_at: at(secs) }
}

fn request(name: &str, priority: u8, timeout_secs: u64) -> SubmitRequest {
    SubmitRequest {
        name: name.to_string(),
        command: format!("run {}", name),
        priority,
        timeout_secs,
    }
}

fn submit(s: &mut SchedulerInner, id: u128, priority: u8, secs: i64) {
    let (code, _) = submit_at(s, request("job", priority, 60), id, at(secs));
    assert_eq!(code, 201);
}

fn status(s: &SchedulerInner, id: u128) -> JobStatus {
    get_job_handler(s, id).unwrap().status
}

fn ids(s: &SchedulerInner) -> Vec<u128> {
    s.jobs.iter().map(|j| j.id).collect()
}

fn finished(id: u128, status: JobStatus, submitted: i64, completed: Option<i64>) -> Job {
    Job {
        id,
        name: String::new(),
        command: String::new(),
        priority: 0,
        status,
        exit_code: None,
        stdout: None,
        stderr: None,
        submitted_at: at(submitted),
        started_at: None,
        completed_at: completed.map(at),
        timeout_secs: 1,
    }
}

fn drain(q: &mut PendingQueue) -> Vec<u128> {
    let mut out = Vec::new();
    while let Some(e) = q.pop() {
        out.push(e.id);
    }
    out
}

fn done(code: i32) -> RunResult {
    RunResult::Finished { exit_code: code, stdout: "o".to_string(), stderr: String::new() }
}

#[test]
fn entries_rank_by_priority_and_then_by_age() {
    assert_eq!(entry(1, 3, 5).cmp(&entry(2, 4, 1)), Ordering::Less);
    assert_eq!(entry(1, 4, 5).cmp(&entry(2, 3, 1)), Ordering::Greater);
    assert_eq!(entry(1, 3, 5).cmp(&entry(2, 3, 6)), Ordering::Greater);
    assert_eq!(entry(1, 3, 6).cmp(&entry(2, 3, 5)), Ordering::Less);
    assert_eq!(entry(1, 3, 5).cmp(&entry(2, 3, 5)), Ordering::Equal);
    assert_eq!(entry(1, 3, 5).partial_cmp(&entry(2, 4, 1)), Some(Ordering::Less));
    assert!(entry(1, 3, 5) < entry(2, 3, 4));
    assert!(entry(1, 3, 5).is_below(&entry(2, 3, 4)));
}

#[test]
fn entries_of_the_same_job_are_equal() {
    assert!(entry(1, 3, 5) == entry(1, 9, 7));
    assert!(entry(1, 3, 5) != entry(2, 3, 5));
}

#[test]
fn nanoseconds_count_for_the_rank() {
    let early = PendingJob { id: 1, priority: 5, submitted_at: Timestamp { secs: 10, nanos: 1 } };
    let late = PendingJob { id: 2, priority: 5, submitted_at: Timestamp { secs: 10, nanos: 2 } };
    assert_eq!(early.cmp(&late), Ordering::Greater);
}

#[test]
fn queue_gives_high_priorities_and_early_submissions_first() {
    let mut q = PendingQueue::new();
    for e in [entry(1, 5, 1), entry(2, 9, 9), entry(3, 5, 0), entry(4, 0, 0), entry(5, 9, 8)] {
        q.push(e);
    }
    assert_eq!(drain(&mut q), vec![5, 2, 3, 1, 4]);
    assert!(q.pop().is_none());
}

#[test]
fn queue_gives_entries_of_equal_rank_in_the_order_they_came() {
    let mut q = PendingQueue::new();
    for id in 1..=4 {
        q.push(entry(id, 5, 1));
    }
    q.push(entry(9, 6, 1));
    assert_eq!(drain(&mut q), vec![9, 1, 2, 3, 4]);
}

#[test]
fn queue_forgets_the_entries_of_a_job() {
    let mut q = PendingQueue::new();
    for e in [entry(1, 5, 1), entry(2, 7, 1), entry(1, 9, 1), entry(3, 5, 0)] {
        q.push(e);
    }
    q.remove_job(1);
    q.remove_job(77);
    assert_eq!(drain(&mut q), vec![2, 3]);
}

#[test]
fn defaults_of_requests() {
    assert_eq!(default_priority(), 5);
    assert_eq!(default_timeout(), 300);
}

#[test]
fn submission_limits_priority_and_timeout() {
    let mut s = SchedulerInner::new(1, 0);
    let cases = [(0, 1), (9, 3600), (10, 3601), (255, u64::MAX), (5, 0)];
    let limits = [(0, 1), (9, 3600), (9, 3600), (9, 3600), (5, 300)];
    for i in 0..cases.len() {
        let id = i as u128;
        let (_, reply) = submit_at(&mut s, request("x", cases[i].0, cases[i].1), id, at(0));
        let job = get_job_handler(&s, id).unwrap();
        assert_eq!((job.priority, job.timeout_secs), limits[i]);
        assert_eq!(reply.timeout_secs, limits[i].1);
    }
}

#[test]
fn limiting_twice_is_limiting_once() {
    for n in 0..=255u8 {
        assert_eq!(limit_priority(limit_priority(n)), limit_priority(n));
    }
    for t in [0, 1, 299, 300, 3599, 3600, 3601, u64::MAX] {
        assert_eq!(limit_timeout(limit_timeout(t)), limit_timeout(t));
    }
}

#[test]
fn submitted_job_is_found_as_pending() {
    let mut s = SchedulerInner::new(1, 10);
    let (code, reply) = submit_at(&mut s, request("train", 7, 120), 42, at(1000));
    assert_eq!(code, 201);
    assert_eq!((reply.id, reply.message.as_str(), reply.timeout_secs), (42, "Job submitted", 120));
    let job = get_job_handler(&s, 42).unwrap();
    assert_eq!((job.id, job.name.as_str(), job.command.as_str()), (42, "train", "run train"));
    assert_eq!((job.priority, job.status, job.timeout_secs), (7, JobStatus::Pending, 120));
    assert_eq!((job.exit_code, job.stdout, job.stderr), (None, None, None));
    assert_eq!((job.submitted_at, job.started_at, job.completed_at), (at(1000), None, None));
}

#[test]
fn submission_takes_a_random_identifier_and_the_present_time() {
    let mut s = SchedulerInner::new(1, 10);
    let (code, a) = submit_handler(&mut s, request("a", 5, 60));
    let (_, b) = submit_handler(&mut s, request("b", 5, 60));
    assert_eq!(code, 201);
    assert_ne!(a.id, b.id);
    for id in [a.id, b.id] {
        assert_eq!((id >> 76) & 0xf, 4);
        assert_eq!((id >> 62) & 3, 2);
        let job = get_job_handler(&s, id).unwrap();
        assert!(job.submitted_at.is_valid());
        assert!(job.submitted_at.secs > 1_600_000_000);
    }
    assert_eq!(s.dispatch(), Some(a.id));
}

#[test]
fn jobs_are_listed_in_the_order_of_submission() {
    let mut s = SchedulerInner::new(1, 10);
    for (id, priority) in [(3, 1), (1, 9), (2, 5)] {
        submit(&mut s, id, priority, 0);
    }
    let listed: Vec<u128> = list_jobs_handler(&s).iter().map(|j| j.id).collect();
    assert_eq!(listed, vec![3, 1, 2]);
    assert!(list_jobs_handler(&SchedulerInner::new(1, 1)).is_empty());
}

#[test]
fn unknown_job_is_not_found() {
    let s = SchedulerInner::new(1, 10);
    let (code, e) = get_job_handler(&s, 0xa1a2a3a4b1b2c1c2d1d2d3d4d5d6d7d8).unwrap_err();
    assert_eq!(code, 404);
    assert_eq!(e.error, "Job a1a2a3a4-b1b2-c1c2-d1d2-d3d4d5d6d7d8 not found");
}

#[test]
fn cancelling_a_pending_job() {
    let mut s = SchedulerInner::new(1, 10);
    submit(&mut s, 1, 5, 0);
    submit(&mut s, 2, 5, 1);
    let reply = cancel_at(&mut s, 1, at(9)).unwrap();
    assert_eq!((reply.message.as_str(), reply.id), ("Job cancelled", 1));
    let job = get_job_handler(&s, 1).unwrap();
    assert_eq!((job.status, job.completed_at), (JobStatus::Cancelled, Some(at(9))));
    assert_eq!(status(&s, 2), JobStatus::Pending);
    assert_eq!(s.dispatch(), Some(2));
    assert_eq!(s.dispatch(), None);
}

#[test]
fn cancelling_twice_is_a_conflict() {
    let mut s = SchedulerInner::new(1, 10);
    submit(&mut s, 1, 5, 0);
    assert!(cancel_job_handler(&mut s, 1).is_ok());
    let first = get_job_handler(&s, 1).unwrap().completed_at;
    assert!(first.unwrap().is_valid());
    let (code, e) = cancel_job_handler(&mut s, 1).unwrap_err();
    assert_eq!(code, 409);
    assert_eq!(
        e.error,
        "Job 00000000-0000-0000-0000-000000000001 is Cancelled, can only cancel pending jobs"
    );
    assert_eq!(get_job_handler(&s, 1).unwrap().completed_at, first);
}

#[test]
fn only_pending_jobs_can_be_cancelled() {
    let names = [
        (JobStatus::Running, "Running"),
        (JobStatus::Completed, "Completed"),
        (JobStatus::Failed, "Failed"),
        (JobStatus::TimedOut, "TimedOut"),
    ];
    for (state, name) in names {
        let mut s = SchedulerInner::new(1, 10);
        submit(&mut s, 1, 5, 0);
        s.jobs[0].status = state;
        let (code, e) = cancel_at(&mut s, 1, at(9)).unwrap_err();
        assert_eq!(code, 409);
        assert!(e.error.ends_with(&format!("is {}, can only cancel pending jobs", name)));
        assert_eq!(status(&s, 1), state);
    }
    let (code, e) = cancel_at(&mut SchedulerInner::new(1, 1), 1, at(9)).unwrap_err();
    assert_eq!((code, e.error.as_str()), (404, "Job 00000000-0000-0000-0000-000000000001 not found"));
}

#[test]
fn dispatching_follows_the_ranking_and_the_limit() {
    let mut s = SchedulerInner::new(2, 10);
    submit(&mut s, 1, 1, 0);
    submit(&mut s, 2, 9, 5);
    submit(&mut s, 3, 9, 4);
    assert_eq!(s.dispatch(), Some(3));
    assert_eq!(s.running_count, 1);
    assert_eq!(s.dispatch(), Some(2));
    assert_eq!(s.dispatch(), None);
    assert_eq!(s.running_count, 2);
    assert_eq!(status(&s, 1), JobStatus::Pending);
    let job = get_job_handler(&s, 3).unwrap();
    assert_eq!(job.status, JobStatus::Running);
    assert!(job.started_at.unwrap().is_valid());
    s.complete_at(3, done(0), at(50));
    assert_eq!(s.dispatch(), Some(1));
}

#[test]
fn no_job_runs_with_a_limit_of_zero() {
    let mut s = SchedulerInner::new(0, 10);
    submit(&mut s, 1, 5, 0);
    assert_eq!(s.dispatch(), None);
    assert_eq!(status(&s, 1), JobStatus::Pending);
}

#[test]
fn entries_of_jobs_that_no_longer_wait_are_skipped() {
    let mut s = SchedulerInner::new(1, 10);
    submit(&mut s, 1, 9, 0);
    submit(&mut s, 2, 8, 0);
    submit(&mut s, 3, 7, 0);
    s.jobs[0].status = JobStatus::Cancelled;
    s.jobs.remove(1);
    assert_eq!(s.next_job(), Some(3));
    assert_eq!(s.next_job(), None);
}

#[test]
fn marking_an_unknown_job_counts_it() {
    let mut s = SchedulerInner::new(1, 10);
    s.mark_running(5, at(1));
    assert_eq!(s.running_count, 1);
    assert!(s.jobs.is_empty());
}

#[test]
fn command_and_time_limit_of_a_job() {
    let mut s = SchedulerInner::new(1, 10);
    submit_at(&mut s, request("x", 5, 77), 1, at(0));
    assert_eq!(s.launch(1), Some(("run x".to_string(), 77)));
    assert_eq!(s.launch(2), None);
}

#[test]
fn completing_a_job() {
    let mut s = SchedulerInner::new(1, 10);
    submit(&mut s, 1, 5, 0);
    s.dispatch();
    s.complete_at(1, done(3), at(50));
    let job = get_job_handler(&s, 1).unwrap();
    assert_eq!((job.status, job.exit_code), (JobStatus::Failed, Some(3)));
    assert_eq!((job.stdout.as_deref(), job.stderr.as_deref()), (Some("o"), Some("")));
    assert_eq!(job.completed_at, Some(at(50)));
    assert_eq!(s.running_count, 0);
    s.complete_at(99, done(0), at(51));
    assert_eq!(s.running_count, 0);
}

#[test]
fn finishing_a_job_now() {
    let mut s = SchedulerInner::new(1, 10);
    submit(&mut s, 1, 5, 0);
    s.dispatch();
    let outcome = RunOutcome::TimedOut { stdout: "part\n".to_string(), stderr: "half".to_string() };
    s.finish_job(1, outcome, 60);
    let job = get_job_handler(&s, 1).unwrap();
    assert_eq!(job.status, JobStatus::TimedOut);
    assert_eq!(
        job.stderr.as_deref(),
        Some("Job timed out after 60 seconds. Partial stderr:\nhalf")
    );
    assert_eq!(job.stdout.as_deref(), Some("part\n"));
    assert!(job.completed_at.unwrap().secs > 1_600_000_000);
}

#[test]
fn a_finished_job_stays_as_it_is() {
    let mut s = SchedulerInner::new(2, 0);
    submit(&mut s, 1, 5, 0);
    s.dispatch();
    s.complete_at(1, done(0), at(50));
    submit(&mut s, 2, 5, 60);
    submit(&mut s, 3, 5, 61);
    assert!(cancel_at(&mut s, 1, at(70)).is_err());
    assert!(cancel_at(&mut s, 2, at(71)).is_ok());
    assert_eq!(s.dispatch(), Some(3));
    s.complete_at(3, done(1), at(80));
    let job = get_job_handler(&s, 1).unwrap();
    assert_eq!((job.status, job.exit_code), (JobStatus::Completed, Some(0)));
    assert_eq!(job.completed_at, Some(at(50)));
    assert_eq!(status(&s, 2), JobStatus::Cancelled);
    assert_eq!(status(&s, 3), JobStatus::Failed);
}

#[test]
fn completion_forgets_the_oldest_finished_jobs() {
    let mut s = SchedulerInner::new(5, 2);
    for id in 1..=4 {
        submit(&mut s, id, 5, id as i64);
    }
    for _ in 0..4 {
        s.dispatch();
    }
    s.complete_at(3, done(0), at(10));
    assert_eq!(ids(&s), vec![1, 2, 4]);
    s.complete_at(1, done(0), at(20));
    assert_eq!(ids(&s), vec![2, 4]);
    s.complete_at(4, done(0), at(30));
    assert_eq!(ids(&s), vec![2, 4]);
    s.complete_at(2, done(0), at(40));
    assert_eq!(ids(&s), vec![2, 4]);
}

#[test]
fn history_without_limit_keeps_all() {
    let mut s = SchedulerInner::new(1, 0);
    for id in 0..5 {
        s.jobs.push(finished(id, JobStatus::Completed, 0, Some(1)));
    }
    evict_old_jobs(&mut s);
    assert_eq!(s.jobs.len(), 5);
}

#[test]
fn history_drops_by_end_time_and_keeps_the_order() {
    let mut s = SchedulerInner::new(1, 2);
    s.jobs.push(finished(1, JobStatus::Completed, 0, Some(40)));
    s.jobs.push(finished(2, JobStatus::Failed, 0, Some(10)));
    s.jobs.push(finished(3, JobStatus::Cancelled, 0, Some(30)));
    s.jobs.push(finished(4, JobStatus::TimedOut, 0, Some(20)));
    evict_old_jobs(&mut s);
    assert_eq!(ids(&s), vec![1, 3]);
    evict_old_jobs(&mut s);
    assert_eq!(ids(&s), vec![1, 3]);
}

#[test]
fn history_drops_the_first_of_equally_old_jobs() {
    let mut s = SchedulerInner::new(1, 2);
    for id in 1..=4 {
        s.jobs.push(finished(id, JobStatus::Completed, 0, Some(7)));
    }
    evict_old_jobs(&mut s);
    assert_eq!(ids(&s), vec![3, 4]);
}

#[test]
fn history_falls_back_to_the_time_of_submission() {
    let mut s = SchedulerInner::new(1, 1);
    s.jobs.push(finished(1, JobStatus::Completed, 0, Some(50)));
    s.jobs.push(finished(2, JobStatus::Completed, 40, None));
    evict_old_jobs(&mut s);
    assert_eq!(ids(&s), vec![1]);
}

#[test]
fn history_keeps_jobs_that_wait_or_run() {
    let mut s = SchedulerInner::new(1, 1);
    s.jobs.push(finished(1, JobStatus::Pending, 0, None));
    s.jobs.push(finished(2, JobStatus::Completed, 0, Some(1)));
    s.jobs.push(finished(3, JobStatus::Running, 0, None));
    s.jobs.push(finished(4, JobStatus::Failed, 0, Some(2)));
    evict_old_jobs(&mut s);
    assert_eq!(ids(&s), vec![1, 3]);
}

#[test]
fn status_counts_every_job_once() {
    let mut s = SchedulerInner::new(1, 100);
    let states = [
        JobStatus::Pending,
        JobStatus::Running,
        JobStatus::Running,
        JobStatus::Completed,
        JobStatus::Completed,
        JobStatus::Completed,
        JobStatus::Failed,
        JobStatus::Cancelled,
        JobStatus::Cancelled,
        JobStatus::TimedOut,
    ];
    for (i, state) in states.iter().enumerate() {
        s.jobs.push(finished(i as u128, *state, 0, None));
    }
    let probe = NpuProbe {
        modules: None,
        device_exists: false,
        device_readable: false,
        firmware: Vec::new(),
        columns: Vec::new(),
        driver: None,
    };
    let reply = status_handler(&s, check_npu_status(&probe));
    assert!(!reply.npu.module_loaded);
    let expected = QueueStats {
        pending: 1,
        running: 2,
        completed: 3,
        failed: 1,
        cancelled: 2,
        timed_out: 1,
        total: 10,
    };
    assert_eq!(reply.queue, expected);
}

#[test]
fn health_is_ok() {
    let h = health_handler();
    assert_eq!((h.status.as_str(), h.uptime_secs), ("ok", 0));
}

#[test]
fn a_cloned_job_is_the_same() {
    let mut job = finished(1, JobStatus::Completed, 3, Some(4));
    job.stdout = Some("x".to_string());
    job.exit_code = Some(0);
    let copy = job.clone();
    assert_eq!(copy.id, 1);
    assert_eq!((copy.status, copy.exit_code), (JobStatus::Completed, Some(0)));
    assert_eq!((copy.stdout.as_deref(), copy.stderr.as_deref()), (Some("x"), None));
    assert_eq!((copy.submitted_at, copy.completed_at), (at(3), Some(at(4))));
    assert_eq!(copy.end_time(), at(4));
}
