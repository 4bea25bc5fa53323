use npu_sched::capture::{read_pipe, Capture, CAPTURE_BYTES};
use npu_sched::job::{Job, JobStatus};
use npu_sched::output::{truncate_output, MAX_OUTPUT_BYTES};
use npu_sched::run::{complete, run_result, RunOutcome, RunResult};
use npu_sched::time::Timestamp;

const NOTE: &str = "\n... [OUTPUT TRUNCATED \u{2014} exceeded 1 MB limit]";

fn at(secs: i64) -> Timestamp {
    Timestamp { secs, nanos: 0 }
}

fn running_job() -> Job {
    Job {
        id: 1,
        name: "n".to_string(),
        command: "c".to_string(),
        priority: 5,
        status: JobStatus::Running,
        exit_code: None,
        stdout: None,
        stderr: None,
        submitted_at: at(1),
        started_at: Some(at(2)),
        completed_at: None,
        timeout_secs: 60,
    }
}

#[test]
fn short_output_stays() {
    assert_eq!(truncate_output("hello".to_string(), 5), "hello");
    assert_eq!(truncate_output(String::new(), 0), "");
}

#[test]
fn long_output_is_cut_with_a_note() {
    assert_eq!(truncate_output("hello!".to_string(), 5), format!("hello{}", NOTE));
    assert_eq!(truncate_output("x".to_string(), 0), NOTE);
}

#[test]
fn output_is_cut_between_characters() {
    let s = "a\u{e9}\u{20ac}\u{1f600}b".to_string();
    assert_eq!(s.len(), 11);
    assert_eq!(truncate_output(s.clone(), 11), s);
    let cut = |n: usize, kept: &str| {
        assert_eq!(truncate_output(s.clone(), n), format!("{}{}", kept, NOTE));
    };
    cut(10, "a\u{e9}\u{20ac}\u{1f600}");
    cut(9, "a\u{e9}\u{20ac}");
    cut(6, "a\u{e9}\u{20ac}");
    cut(5, "a\u{e9}");
    cut(3, "a\u{e9}");
    cut(2, "a");
    cut(1, "a");
    cut(0, "");
}

#[test]
fn output_limit_is_one_megabyte() {
    assert_eq!(MAX_OUTPUT_BYTES, 1024 * 1024);
    let s = "y".repeat(MAX_OUTPUT_BYTES + 1);
    let t = truncate_output(s, MAX_OUTPUT_BYTES);
    assert_eq!(t.len(), MAX_OUTPUT_BYTES + NOTE.len());
}

fn piped(bytes: &[u8]) -> String {
    let mut c = Capture::new();
    c.add(bytes);
    read_pipe(Some(c))
}

#[test]
fn pipes_are_read_as_text() {
    assert_eq!(read_pipe(None), "");
    assert_eq!(piped(b""), "");
    assert_eq!(piped("gr\u{fc}n".as_bytes()), "gr\u{fc}n");
    assert_eq!(piped(&[b'a', 0xc3, b'b']), "a\u{fffd}b");
    assert_eq!(piped(b"\xf0\x9f\x98"), String::from_utf8_lossy(b"\xf0\x9f\x98"));
}

#[test]
fn results_of_runs() {
    match run_result(RunOutcome::SpawnFailed { error: "no sh".to_string() }, 9) {
        RunResult::Error { message } => assert_eq!(message, "Failed to spawn: no sh"),
        _ => panic!(),
    }
    match run_result(RunOutcome::WaitFailed { error: "gone".to_string() }, 9) {
        RunResult::Error { message } => assert_eq!(message, "Failed to wait: gone"),
        _ => panic!(),
    }
    let outcome = RunOutcome::Exited { code: None, stdout: "o".to_string(), stderr: "e".to_string() };
    match run_result(outcome, 9) {
        RunResult::Finished { exit_code, stdout, stderr } => {
            assert_eq!((exit_code, stdout.as_str(), stderr.as_str()), (-1, "o", "e"));
        }
        _ => panic!(),
    }
}

#[test]
fn timeout_messages() {
    let outcome = RunOutcome::TimedOut { stdout: "part\n".to_string(), stderr: String::new() };
    match run_result(outcome, 300) {
        RunResult::TimedOut { stdout, message } => {
            assert_eq!(stdout, "part\n");
            assert_eq!(message, "Job timed out after 300 seconds");
        }
        _ => panic!(),
    }
    let outcome = RunOutcome::TimedOut { stdout: String::new(), stderr: "half".to_string() };
    match run_result(outcome, 1) {
        RunResult::TimedOut { stdout, message } => {
            assert_eq!(stdout, "");
            assert_eq!(message, "Job timed out after 1 seconds. Partial stderr:\nhalf")
        }
        _ => panic!(),
    }
}

#[test]
fn success_and_failure_by_exit_code() {
    for (code, status) in [(0, JobStatus::Completed), (1, JobStatus::Failed), (-1, JobStatus::Failed)] {
        let mut job = running_job();
        let result = RunResult::Finished {
            exit_code: code,
            stdout: "out".to_string(),
            stderr: "err".to_string(),
        };
        complete(&mut job, result, at(7));
        assert_eq!(job.status, status);
        assert_eq!(job.exit_code, Some(code));
        assert_eq!(job.stdout.as_deref(), Some("out"));
        assert_eq!(job.stderr.as_deref(), Some("err"));
        assert_eq!(job.completed_at, Some(at(7)));
        assert_eq!(job.started_at, Some(at(2)));
    }
}

#[test]
fn errors_and_timeouts_leave_a_message() {
    let mut job = running_job();
    complete(&mut job, RunResult::Error { message: "Failed to spawn: x".to_string() }, at(7));
    assert_eq!(job.status, JobStatus::Failed);
    assert_eq!(job.exit_code, None);
    assert_eq!(job.stdout, None);
    assert_eq!(job.stderr.as_deref(), Some("Execution error: Failed to spawn: x"));
    let mut job = running_job();
    let result = RunResult::TimedOut { stdout: "part\n".to_string(), message: "late".to_string() };
    complete(&mut job, result, at(8));
    assert_eq!(job.status, JobStatus::TimedOut);
    assert_eq!(job.exit_code, None);
    assert_eq!(job.stdout.as_deref(), Some("part\n"));
    assert_eq!(job.stderr.as_deref(), Some("late"));
    assert_eq!(job.completed_at, Some(at(8)));
}

#[test]
fn kept_outputs_are_bounded() {
    let mut job = running_job();
    let big = "z".repeat(MAX_OUTPUT_BYTES + 10);
    let result = RunResult::Finished { exit_code: 0, stdout: big.clone(), stderr: big };
    complete(&mut job, result, at(7));
    for out in [job.stdout.unwrap(), job.stderr.unwrap()] {
        assert_eq!(out.len(), MAX_OUTPUT_BYTES + NOTE.len());
        assert!(out.ends_with(NOTE));
    }
}

#[test]
fn partial_outputs_of_a_timeout_are_bounded_too() {
    let mut job = running_job();
    let big = "z".repeat(MAX_OUTPUT_BYTES + 10);
    let outcome = RunOutcome::TimedOut { stdout: big.clone(), stderr: big };
    complete(&mut job, run_result(outcome, 60), at(7));
    for out in [job.stdout.unwrap(), job.stderr.unwrap()] {
        assert_eq!(out.len(), MAX_OUTPUT_BYTES + NOTE.len());
        assert!(out.ends_with(NOTE));
    }
}

fn capture(chunks: &[&[u8]]) -> Vec<u8> {
    let mut c = Capture::new();
    for chunk in chunks {
        c.add(chunk);
    }
    c.finish()
}

#[test]
fn short_outputs_are_captured_whole() {
    assert_eq!(capture(&[]), b"");
    assert_eq!(capture(&[b"ab", b"", b"c\xff"]), b"abc\xff");
    let all = vec![b'x'; CAPTURE_BYTES - 1];
    assert_eq!(capture(&[&all]), all);
}

#[test]
fn long_outputs_are_captured_up_to_a_character_beyond_the_limit() {
    let ascii = vec![b'x'; 2 * MAX_OUTPUT_BYTES];
    assert_eq!(capture(&[&ascii]).len(), MAX_OUTPUT_BYTES + 1);
    assert_eq!(capture(&[&ascii, &ascii, b"y"]).len(), MAX_OUTPUT_BYTES + 1);
    let wide = "\u{1f600}".repeat(MAX_OUTPUT_BYTES / 2);
    assert_eq!(capture(&[wide.as_bytes()]).len(), MAX_OUTPUT_BYTES + 4);
    let broken = vec![0x80; 2 * MAX_OUTPUT_BYTES];
    assert_eq!(capture(&[&broken]).len(), CAPTURE_BYTES);
}

fn same_is_kept(all: &[u8]) {
    assert_eq!(
        truncate_output(piped(all), MAX_OUTPUT_BYTES),
        truncate_output(String::from_utf8_lossy(all).into_owned(), MAX_OUTPUT_BYTES)
    );
}

#[test]
fn capturing_loses_nothing_that_a_job_keeps() {
    for shift in 0..4 {
        for letter in ["z", "\u{e9}", "\u{20ac}", "\u{1f600}"] {
            let all = "x".repeat(shift) + &letter.repeat(MAX_OUTPUT_BYTES);
            same_is_kept(all.as_bytes());
        }
    }
}

#[test]
fn capturing_loses_nothing_of_text_before_other_bytes() {
    let mut all = "\u{20ac}".repeat(MAX_OUTPUT_BYTES / 3 + 3).into_bytes();
    all.resize(2 * MAX_OUTPUT_BYTES, 0xe2);
    same_is_kept(&all);
}

#[test]
fn capturing_loses_nothing_of_broken_text() {
    let patterns: [&[u8]; 6] =
        [b"\xe2", b"\x80", b"\xf0\x9f\x98", b"\xe2\x82z", b"\xed\xa0\x80", b"\xf0\x80\x80\x80\x80"];
    for shift in 0..5 {
        for pattern in patterns {
            let mut all = vec![b'x'; shift];
            while all.len() < MAX_OUTPUT_BYTES + 20 {
                all.extend_from_slice(pattern);
            }
            same_is_kept(&all);
        }
    }
}
