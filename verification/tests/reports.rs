use npu_sched::api::{QueueStats, StatusResponse, SubmitResponse};
use npu_sched::job::{Job, JobStatus};
use npu_sched::npu::{
    check_npu_status, module_loaded, number_value, read_driver_version, read_sysfs_columns,
    read_sysfs_firmware_version, version_text, NpuProbe, NpuStatus,
};
use npu_sched::report::{
    is_truncatable, job_row, job_row_with, status_report, submitted_line, table_head, truncate,
};
use npu_sched::text::{decimal_string, pad, trim};
use npu_sched::time::Timestamp;

fn job(name: &str, status: JobStatus) -> Job {
    Job {
        id: 0x0123456789abcdef0011223344556677,
        name: name.to_string(),
        command: "c".to_string(),
        priority: 7,
        status,
        exit_code: None,
        stdout: None,
        stderr: None,
        submitted_at: Timestamp { secs: 1_431_648_000, nanos: 5 },
        started_at: None,
        completed_at: None,
        timeout_secs: 1,
    }
}

fn some(s: &str) -> Option<String> {
    Some(s.to_string())
}

#[test]
fn loaded_module_has_a_line_of_its_own() {
    assert!(module_loaded("amdxdna 1 2\n"));
    assert!(module_loaded("a 1\namdxdna 126976 0 - Live\nb 2\n"));
    assert!(module_loaded("a\r\namdxdna \r\n"));
    assert!(!module_loaded("xamdxdna 1\n"));
    assert!(!module_loaded("a amdxdna 1\n"));
    assert!(!module_loaded("amdxdna\n"));
    assert!(!module_loaded("amdxdna_x 1\n"));
    assert!(!module_loaded(""));
}

#[test]
fn versions_are_trimmed() {
    assert_eq!(version_text(" 1.2.3\n"), some("1.2.3"));
    assert_eq!(version_text("\u{3000}v 1\u{a0}\t"), some("v 1"));
    assert_eq!(version_text(" \n\t"), None);
    assert_eq!(version_text(""), None);
}

#[test]
fn white_space_is_trimmed_as_the_standard_library_does() {
    let mut all = String::new();
    for c in (0..=0x3100u32).filter_map(char::from_u32) {
        let s = format!("{}x{}", c, c);
        assert_eq!(trim(&s), s.trim(), "{:?}", c);
        all.push(c);
    }
    assert_eq!(trim(&all), all.trim());
}

#[test]
fn numbers_are_read_as_the_standard_library_does() {
    let texts = [
        "0", "8", "+8", " 8\n", "007", "4294967295", "4294967296", "99999999999999999999", "", "+",
        "-1", "-0", "1 2", "0x8", "8.0", "++8", "\u{0661}", "1_000", "+0000000000000000000000012",
    ];
    for t in texts {
        assert_eq!(number_value(t), t.trim().parse::<u32>().ok(), "{:?}", t);
    }
}

#[test]
fn numbers_are_written_as_the_standard_library_does() {
    for n in [0u64, 9, 10, 99, 100, 12345, 1_048_576, u64::MAX] {
        assert_eq!(decimal_string(n), n.to_string());
    }
}

#[test]
fn first_file_with_a_value_counts() {
    assert_eq!(read_sysfs_firmware_version(&vec![None, some("1.0\n")]), some("1.0"));
    assert_eq!(read_sysfs_firmware_version(&vec![some(" \n"), some("2")]), some("2"));
    assert_eq!(read_sysfs_firmware_version(&vec![some("1"), some("2")]), some("1"));
    assert_eq!(read_sysfs_firmware_version(&vec![None, None]), None);
    assert_eq!(read_sysfs_columns(&vec![some("x"), some("8\n")]), Some(8));
    assert_eq!(read_sysfs_columns(&vec![some("4"), some("8")]), Some(4));
    assert_eq!(read_sysfs_columns(&vec![some(""), None]), None);
    assert_eq!(read_driver_version(&some("6.1\n")), some("6.1"));
    assert_eq!(read_driver_version(&some("")), None);
    assert_eq!(read_driver_version(&None), None);
}

#[test]
fn probe_of_a_present_device() {
    let mut probe = NpuProbe {
        modules: some("amdxdna 1\n"),
        device_exists: true,
        device_readable: true,
        firmware: vec![some("1.5")],
        columns: vec![some("4")],
        driver: None,
    };
    let s = check_npu_status(&probe);
    assert!(s.module_loaded && s.device_exists && s.device_accessible);
    assert_eq!((s.firmware_version, s.columns, s.driver_version), (some("1.5"), Some(4), None));
    probe.device_readable = false;
    assert!(!check_npu_status(&probe).device_accessible);
    probe.device_exists = false;
    probe.device_readable = true;
    let s = check_npu_status(&probe);
    assert!(!s.device_exists && !s.device_accessible);
}

#[test]
fn report_with_all_lines() {
    let status = StatusResponse {
        npu: NpuStatus {
            module_loaded: true,
            device_exists: true,
            device_accessible: false,
            firmware_version: some("1.5"),
            columns: Some(8),
            driver_version: some("2.0"),
        },
        queue: QueueStats {
            pending: 1,
            running: 2,
            completed: 30,
            failed: 4,
            cancelled: 5,
            timed_out: 6,
            total: 48,
        },
    };
    assert_eq!(
        status_report(&status),
        "=== NPU Status ===\n  Module loaded:    yes\n  Device exists:    yes\n  Device accessible: no\n  Firmware:         1.5\n  Columns:          8\n  Driver version:   2.0\n\n=== Queue Stats ===\n  Pending:    1\n  Running:    2\n  Completed:  30\n  Failed:     4\n  Cancelled:  5\n  Timed out:  6\n  Total:      48\n"
    );
}

#[test]
fn report_without_versions() {
    let status = StatusResponse {
        npu: NpuStatus {
            module_loaded: false,
            device_exists: false,
            device_accessible: false,
            firmware_version: None,
            columns: None,
            driver_version: None,
        },
        queue: QueueStats {
            pending: 0,
            running: 0,
            completed: 0,
            failed: 0,
            cancelled: 0,
            timed_out: 0,
            total: 0,
        },
    };
    let text = status_report(&status);
    assert!(text.starts_with("=== NPU Status ===\n  Module loaded:    no\n"));
    assert!(text.contains("  Device accessible: no\n\n=== Queue Stats ===\n"));
}

#[test]
fn submitted_job_is_named() {
    let r = SubmitResponse { id: 1, message: String::new(), timeout_secs: 1 };
    assert_eq!(submitted_line(&r), "Job submitted: 00000000-0000-0000-0000-000000000001\n");
}

#[test]
fn names_are_shortened() {
    assert_eq!(truncate("short", 20), "short");
    assert_eq!(truncate("exactly-twenty-chars", 20), "exactly-twenty-chars");
    assert_eq!(truncate("more-than-twenty-chars", 20), "more-than-twenty-...");
    assert_eq!(truncate("abcd", 3), "...");
    assert_eq!(truncate("abcd", 2), "...");
    assert_eq!(truncate("ab", 0), "...");
    assert_eq!(truncate("\u{e9}\u{e9}\u{e9}\u{e9}", 7), "\u{e9}\u{e9}...");
}

#[test]
fn cut_within_a_character_is_recognised() {
    assert!(!is_truncatable("\u{e9}\u{e9}\u{e9}\u{e9}", 6));
    assert!(is_truncatable("\u{e9}\u{e9}\u{e9}\u{e9}", 7));
    assert!(is_truncatable("\u{e9}\u{e9}\u{e9}\u{e9}", 8));
    assert!(is_truncatable("", 0));
}

#[test]
fn texts_are_padded_by_characters() {
    assert_eq!(pad("ab", 4), "ab  ");
    assert_eq!(pad("\u{e9}", 2), "\u{e9} ");
    assert_eq!(pad("abcd", 4), "abcd");
    assert_eq!(pad("abcde", 4), "abcde");
}

#[test]
fn table_without_jobs() {
    assert_eq!(table_head(0), "No jobs.\n");
}

#[test]
fn table_head_has_titles_and_a_rule() {
    let expected = format!(
        "{:<38} {:<20} {:<4} {:<12} {:<20}\n{}\n",
        "ID",
        "NAME",
        "PRI",
        "STATUS",
        "SUBMITTED",
        "-".repeat(96)
    );
    assert_eq!(table_head(3), expected);
}

#[test]
fn row_of_a_job() {
    let row = job_row(&job("a-very-long-name-of-a-job", JobStatus::TimedOut));
    assert_eq!(
        row,
        "01234567-89ab-cdef-0011-223344556677 a-very-long-name-... 7    timedout     2015-05-15 00:00:00 \n"
    );
    let id = uuid::Uuid::from_u128(0x0123456789abcdef0011223344556677);
    let date = chrono::DateTime::<chrono::Utc>::from_timestamp(1_431_648_000, 5).unwrap();
    let expected = format!(
        "{:<38} {:<20} {:<4} {:<12} {:<20}\n",
        id,
        "a-very-long-name-...",
        7,
        "timedout",
        date.format("%Y-%m-%d %H:%M:%S"),
    );
    assert_eq!(row, expected);
}

#[test]
fn row_with_a_given_time() {
    let labels = [
        (JobStatus::Pending, "pending"),
        (JobStatus::Running, "running"),
        (JobStatus::Completed, "completed"),
        (JobStatus::Failed, "failed"),
        (JobStatus::Cancelled, "cancelled"),
        (JobStatus::TimedOut, "timedout"),
    ];
    for (status, label) in labels {
        assert_eq!(
            job_row_with(&job("n", status), "now"),
            format!(
                "01234567-89ab-cdef-0011-223344556677 {:<20} 7    {:<12} {:<20}\n",
                "n", label, "now"
            )
        );
    }
}

#[test]
fn valid_points_in_time_are_those_of_the_calendar() {
    let cases = [
        (0, 0),
        (-1, 999_999_999),
        (59, 1_999_999_999),
        (-1, 1_000_000_000),
        (58, 1_000_000_000),
        (60, 1_000_000_000),
        (59, 2_000_000_000),
        (8_210_266_876_799, 0),
        (8_210_266_876_800, 0),
        (-8_334_601_228_800, 0),
        (-8_334_601_228_801, 0),
        (i64::MAX, 0),
        (i64::MIN, 0),
    ];
    for (secs, nanos) in cases {
        let date = chrono::DateTime::<chrono::Utc>::from_timestamp(secs, nanos);
        assert_eq!(Timestamp { secs, nanos }.is_valid(), date.is_some(), "{} {}", secs, nanos);
    }
}

#[test]
fn points_in_time_are_ordered_as_dates() {
    let cases = [(-5, 7), (-5, 8), (0, 0), (0, 1), (59, 999_999_999), (59, 1_000_000_000), (60, 0)];
    for a in cases {
        for b in cases {
            let date = |t: (i64, u32)| chrono::DateTime::<chrono::Utc>::from_timestamp(t.0, t.1).unwrap();
            let (x, y) = (
                Timestamp { secs: a.0, nanos: a.1 },
                Timestamp { secs: b.0, nanos: b.1 },
            );
            assert_eq!(x.is_before(&y), date(a) < date(b));
        }
    }
}
