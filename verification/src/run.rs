//! What the run of a job's command came to, and what the job keeps of it.

use vstd::prelude::*;
use crate::job::{Job, JobStatus, JobView};
use crate::output;
use crate::output::{truncate_output, MAX_OUTPUT_BYTES};
use crate::text;
use crate::time::Timestamp;

verus! {

/// How the run of a command ended.
pub enum RunOutcome {
    /// The process could not be started.
    SpawnFailed { error: String },
    /// Waiting for the process failed.
    WaitFailed { error: String },
    /// The process ended by itself; one that a signal ended has no code.
    Exited { code: Option<i32>, stdout: String, stderr: String },
    /// The process was killed after its time was up; the outputs are what it had written.
    TimedOut { stdout: String, stderr: String },
}

/// What a run came to.
pub enum RunResult {
    /// The command ran to its end.
    Finished { exit_code: i32, stdout: String, stderr: String },
    /// The command could not be run to its end.
    Error { message: String },
    /// The command took too long; `stdout` is what it had written.
    TimedOut { stdout: String, message: String },
}

/// The value of a result: its texts are sequences of characters.
#[verifier::ext_equal]
pub enum RunResultView {
    Finished { exit_code: i32, stdout: Seq<char>, stderr: Seq<char> },
    Error { message: Seq<char> },
    TimedOut { stdout: Seq<char>, message: Seq<char> },
}

impl View for RunResult {
    type V = RunResultView;

    open spec fn view(&self) -> RunResultView {
        match self {
            RunResult::Finished { exit_code, stdout, stderr } => RunResultView::Finished {
                exit_code: *exit_code,
                stdout: stdout@,
                stderr: stderr@,
            },
            RunResult::Error { message } => RunResultView::Error { message: message@ },
            RunResult::TimedOut { stdout, message } => RunResultView::TimedOut {
                stdout: stdout@,
                message: message@,
            },
        }
    }
}

/// The message of a run that took too long, with what it had written to its error stream.
pub open spec fn timeout_message(timeout_secs: u64, stderr: Seq<char>) -> Seq<char> {
    let head = "Job timed out after "@ + text::decimal(timeout_secs as nat);
    if stderr.len() == 0 {
        head + " seconds"@
    } else {
        head + " seconds. Partial stderr:\n"@ + stderr
    }
}

/// What a run with the given time limit came to.
pub open spec fn result_of(outcome: RunOutcome, timeout_secs: u64) -> RunResultView {
    match outcome {
        RunOutcome::SpawnFailed { error } => RunResultView::Error {
            message: "Failed to spawn: "@ + error@,
        },
        RunOutcome::WaitFailed { error } => RunResultView::Error {
            message: "Failed to wait: "@ + error@,
        },
        RunOutcome::Exited { code, stdout, stderr } => RunResultView::Finished {
            exit_code: match code {
                Some(c) => c,
                None => -1i32,
            },
            stdout: stdout@,
            stderr: stderr@,
        },
        RunOutcome::TimedOut { stdout, stderr } => RunResultView::TimedOut {
            stdout: stdout@,
            message: timeout_message(timeout_secs, stderr@),
        },
    }
}

/// What a run with the given time limit came to.
pub fn run_result(outcome: RunOutcome, timeout_secs: u64) -> (res: RunResult)
    ensures
        res@ == result_of(outcome, timeout_secs),
{
    match outcome {
        RunOutcome::SpawnFailed { error } => {
            let mut message = "Failed to spawn: ".to_string();
            message.append(error.as_str());
            RunResult::Error { message }
        },
        RunOutcome::WaitFailed { error } => {
            let mut message = "Failed to wait: ".to_string();
            message.append(error.as_str());
            RunResult::Error { message }
        },
        RunOutcome::Exited { code, stdout, stderr } => {
            RunResult::Finished { exit_code: code.unwrap_or(-1), stdout, stderr }
        },
        RunOutcome::TimedOut { stdout, stderr } => {
            let mut message = "Job timed out after ".to_string();
            message.append(text::decimal_string(timeout_secs).as_str());
            if stderr.as_str().is_empty() {
                message.append(" seconds");
            } else {
                message.append(" seconds. Partial stderr:\n");
                message.append(stderr.as_str());
            }
            RunResult::TimedOut { stdout, message }
        },
    }
}

/// An output stream as a job keeps it.
pub open spec fn kept(s: Seq<char>) -> Option<Seq<char>> {
    Some(output::truncated(s, MAX_OUTPUT_BYTES as nat))
}

/// A job whose run came to a result: it has an end time, and its status follows from the
/// result. A command that ended by itself leaves its exit code and both outputs. One that took
/// too long leaves its output, and a message in the place of the error output; one that could not
/// be run leaves a message alone.
pub open spec fn completed_job(job: JobView, result: RunResultView, now: Timestamp) -> JobView {
    match result {
        RunResultView::Finished { exit_code, stdout, stderr } => JobView {
            completed_at: Some(now),
            exit_code: Some(exit_code),
            stdout: kept(stdout),
            stderr: kept(stderr),
            status: if exit_code == 0 {
                JobStatus::Completed
            } else {
                JobStatus::Failed
            },
            ..job
        },
        RunResultView::Error { message } => JobView {
            completed_at: Some(now),
            stderr: kept("Execution error: "@ + message),
            status: JobStatus::Failed,
            ..job
        },
        RunResultView::TimedOut { stdout, message } => JobView {
            completed_at: Some(now),
            stdout: kept(stdout),
            stderr: kept(message),
            status: JobStatus::TimedOut,
            ..job
        },
    }
}

/// The partial output of a run that took too long is captured: the job keeps what the process had
/// written to its output, and, behind a message, what it had written to its error output.
pub proof fn law_timeout_captures_output(
    job: JobView,
    stdout: String,
    stderr: String,
    timeout_secs: u64,
    now: Timestamp,
)
    ensures
        ({
            let outcome = RunOutcome::TimedOut { stdout, stderr };
            let done = completed_job(job, result_of(outcome, timeout_secs), now);
            &&& done.status is TimedOut
            &&& done.stdout == kept(stdout@)
            &&& done.stderr == kept(timeout_message(timeout_secs, stderr@))
        }),
{
}

/// Enters the result of a job's run into the job.
pub fn complete(job: &mut Job, result: RunResult, now: Timestamp)
    ensures
        final(job)@ == completed_job(old(job)@, result@, now),
{
    job.completed_at = Some(now);
    match result {
        RunResult::Finished { exit_code, stdout, stderr } => {
            job.exit_code = Some(exit_code);
            job.stdout = Some(truncate_output(stdout, MAX_OUTPUT_BYTES));
            job.stderr = Some(truncate_output(stderr, MAX_OUTPUT_BYTES));
            if exit_code == 0 {
                job.status = JobStatus::Completed;
            } else {
                job.status = JobStatus::Failed;
            }
        },
        RunResult::Error { message } => {
            job.status = JobStatus::Failed;
            let mut full = "Execution error: ".to_string();
            full.append(message.as_str());
            job.stderr = Some(truncate_output(full, MAX_OUTPUT_BYTES));
        },
        RunResult::TimedOut { stdout, message } => {
            job.status = JobStatus::TimedOut;
            job.stdout = Some(truncate_output(stdout, MAX_OUTPUT_BYTES));
            job.stderr = Some(truncate_output(message, MAX_OUTPUT_BYTES));
        },
    }
}

// What a run leaves in its job.

/// The value of a result shows each of its parts as it is.
pub proof fn law_result_view(exit_code: i32, stdout: String, stderr: String, message: String)
    ensures
        (RunResult::Finished { exit_code, stdout, stderr })@ == (RunResultView::Finished {
            exit_code,
            stdout: stdout@,
            stderr: stderr@,
        }),
        (RunResult::Error { message })@ == (RunResultView::Error { message: message@ }),
        (RunResult::TimedOut { stdout, message })@ == (RunResultView::TimedOut {
            stdout: stdout@,
            message: message@,
        }),
{
}

/// A job whose process ended by itself has the code that it ended with, or -1 where a signal ended
/// it, and both outputs, as they were written where they take at most 1 MB and else truncated to
/// it. It is completed if the code is 0, and has failed with any other.
pub proof fn law_exited(
    job: JobView,
    code: Option<i32>,
    stdout: String,
    stderr: String,
    timeout_secs: u64,
    now: Timestamp,
)
    ensures
        ({
            let outcome = RunOutcome::Exited { code, stdout, stderr };
            let done = completed_job(job, result_of(outcome, timeout_secs), now);
            &&& code is Some ==> done.exit_code == code
            &&& code is None ==> done.exit_code == Some(-1i32)
            &&& code == Some(0i32) <==> done.status == JobStatus::Completed
            &&& code != Some(0i32) <==> done.status == JobStatus::Failed
            &&& done.stdout == Some(output::truncated(stdout@, 1_048_576))
            &&& done.stderr == Some(output::truncated(stderr@, 1_048_576))
            &&& done.completed_at == Some(now)
        }),
{
}

/// A job whose process could not be started, or not be awaited, has failed, with a message that
/// says so in the place of the error output, and with nothing else.
pub proof fn law_not_run(job: JobView, error: String, timeout_secs: u64, now: Timestamp)
    ensures
        ({
            let done = completed_job(
                job,
                result_of(RunOutcome::SpawnFailed { error }, timeout_secs),
                now,
            );
            &&& done.status == JobStatus::Failed
            &&& done.stderr == Some(
                output::truncated("Execution error: "@ + ("Failed to spawn: "@ + error@), 1_048_576),
            )
            &&& done.stdout == job.stdout
            &&& done.exit_code == job.exit_code
            &&& done.completed_at == Some(now)
        }),
        ({
            let done = completed_job(
                job,
                result_of(RunOutcome::WaitFailed { error }, timeout_secs),
                now,
            );
            &&& done.status == JobStatus::Failed
            &&& done.stderr == Some(
                output::truncated("Execution error: "@ + ("Failed to wait: "@ + error@), 1_048_576),
            )
            &&& done.stdout == job.stdout
            &&& done.exit_code == job.exit_code
            &&& done.completed_at == Some(now)
        }),
{
}

/// A job whose process took too long has timed out. It has what was written to the output, and a
/// message that names the time limit and, where there is one, gives the partial error output.
pub proof fn law_timed_out(
    job: JobView,
    stdout: String,
    stderr: String,
    timeout_secs: u64,
    now: Timestamp,
)
    ensures
        ({
            let outcome = RunOutcome::TimedOut { stdout, stderr };
            let done = completed_job(job, result_of(outcome, timeout_secs), now);
            &&& done.status == JobStatus::TimedOut
            &&& done.stdout == Some(output::truncated(stdout@, 1_048_576))
            &&& stderr@ == Seq::<char>::empty() ==> done.stderr == Some(
                output::truncated(
                    "Job timed out after "@ + text::decimal(timeout_secs as nat) + " seconds"@,
                    1_048_576,
                ),
            )
            &&& stderr@ != Seq::<char>::empty() ==> done.stderr == Some(
                output::truncated(
                    "Job timed out after "@ + text::decimal(timeout_secs as nat)
                        + " seconds. Partial stderr:\n"@ + stderr@,
                    1_048_576,
                ),
            )
            &&& done.exit_code == job.exit_code
            &&& done.completed_at == Some(now)
        }),
{
    assert(stderr@.len() == 0 ==> stderr@ == Seq::<char>::empty());
}

/// Whatever its run came to, a job stays the one that was submitted and started.
pub proof fn law_run_keeps_request(job: JobView, result: RunResultView, now: Timestamp)
    ensures
        completed_job(job, result, now).id == job.id,
        completed_job(job, result, now).name == job.name,
        completed_job(job, result, now).command == job.command,
        completed_job(job, result, now).priority == job.priority,
        completed_job(job, result, now).submitted_at == job.submitted_at,
        completed_job(job, result, now).started_at == job.started_at,
        completed_job(job, result, now).timeout_secs == job.timeout_secs,
{
}

} // verus!
