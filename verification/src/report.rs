//! What the client shows.

use vstd::prelude::*;
use vstd::utf8::*;
use crate::api::{QueueStats, StatusResponse, SubmitResponse};
use crate::job::{Job, JobView};
use crate::job_id;
use crate::job_id::id_string;
use crate::npu::{NpuStatus, NpuStatusView};
use crate::output;
use crate::text;
use crate::text::{decimal_string, pad};
use crate::time;
use crate::time::format_utc;

verus! {

// Status.

/// `yes` or `no`.
pub open spec fn yes_no_text(b: bool) -> Seq<char> {
    if b {
        "yes"@
    } else {
        "no"@
    }
}

fn yes_no(b: bool) -> (res: &'static str)
    ensures
        res@ == yes_no_text(b),
{
    if b {
        "yes"
    } else {
        "no"
    }
}

/// One line: a label and a value.
pub open spec fn line_text(label: Seq<char>, value: Seq<char>) -> Seq<char> {
    label + value + "\n"@
}

/// One line where there is a value, else nothing.
pub open spec fn optional_line(label: Seq<char>, value: Option<Seq<char>>) -> Seq<char> {
    match value {
        Some(v) => line_text(label, v),
        None => Seq::<char>::empty(),
    }
}

/// The lines on the NPU.
pub open spec fn npu_text(npu: NpuStatusView) -> Seq<char> {
    "=== NPU Status ===\n"@ + line_text("  Module loaded:    "@, yes_no_text(npu.module_loaded))
        + line_text("  Device exists:    "@, yes_no_text(npu.device_exists)) + line_text(
        "  Device accessible: "@,
        yes_no_text(npu.device_accessible),
    ) + optional_line("  Firmware:         "@, npu.firmware_version) + optional_line(
        "  Columns:          "@,
        match npu.columns {
            Some(n) => Some(text::decimal(n as nat)),
            None => None,
        },
    ) + optional_line("  Driver version:   "@, npu.driver_version)
}

/// The lines on the queue.
pub open spec fn queue_text(queue: QueueStats) -> Seq<char> {
    "=== Queue Stats ===\n"@ + line_text("  Pending:    "@, text::decimal(queue.pending as nat))
        + line_text("  Running:    "@, text::decimal(queue.running as nat)) + line_text(
        "  Completed:  "@,
        text::decimal(queue.completed as nat),
    ) + line_text("  Failed:     "@, text::decimal(queue.failed as nat)) + line_text(
        "  Cancelled:  "@,
        text::decimal(queue.cancelled as nat),
    ) + line_text("  Timed out:  "@, text::decimal(queue.timed_out as nat)) + line_text(
        "  Total:      "@,
        text::decimal(queue.total as nat),
    )
}

fn add_line(out: &mut String, label: &str, value: &str)
    ensures
        final(out)@ == old(out)@ + line_text(label@, value@),
{
    out.append(label);
    out.append(value);
    out.append("\n");
    assert(out@ == old(out)@ + line_text(label@, value@));
}

fn npu_report(npu: &NpuStatus) -> (res: String)
    ensures
        res@ == npu_text(npu@),
{
    let mut out = "=== NPU Status ===\n".to_string();
    add_line(&mut out, "  Module loaded:    ", yes_no(npu.module_loaded));
    add_line(&mut out, "  Device exists:    ", yes_no(npu.device_exists));
    add_line(&mut out, "  Device accessible: ", yes_no(npu.device_accessible));
    let ghost before = out@;
    if let Some(v) = &npu.firmware_version {
        add_line(&mut out, "  Firmware:         ", v.as_str());
    }
    assert(out@ == before + optional_line("  Firmware:         "@, npu@.firmware_version));
    let ghost before = out@;
    let ghost columns = match npu@.columns {
        Some(n) => Some(text::decimal(n as nat)),
        None => None,
    };
    if let Some(n) = npu.columns {
        add_line(&mut out, "  Columns:          ", decimal_string(n as u64).as_str());
    }
    assert(out@ == before + optional_line("  Columns:          "@, columns));
    let ghost before = out@;
    if let Some(v) = &npu.driver_version {
        add_line(&mut out, "  Driver version:   ", v.as_str());
    }
    assert(out@ == before + optional_line("  Driver version:   "@, npu@.driver_version));
    out
}

fn queue_report(queue: &QueueStats) -> (res: String)
    ensures
        res@ == queue_text(*queue),
{
    let mut out = "=== Queue Stats ===\n".to_string();
    add_line(&mut out, "  Pending:    ", decimal_string(queue.pending as u64).as_str());
    add_line(&mut out, "  Running:    ", decimal_string(queue.running as u64).as_str());
    add_line(&mut out, "  Completed:  ", decimal_string(queue.completed as u64).as_str());
    add_line(&mut out, "  Failed:     ", decimal_string(queue.failed as u64).as_str());
    add_line(&mut out, "  Cancelled:  ", decimal_string(queue.cancelled as u64).as_str());
    add_line(&mut out, "  Timed out:  ", decimal_string(queue.timed_out as u64).as_str());
    add_line(&mut out, "  Total:      ", decimal_string(queue.total as u64).as_str());
    out
}

/// The lines on the daemon's status: those on the NPU, an empty one, and those on the queue.
pub fn status_report(status: &StatusResponse) -> (res: String)
    ensures
        res@ == npu_text(status.npu@) + "\n"@ + queue_text(status.queue),
{
    let mut out = npu_report(&status.npu);
    out.append("\n");
    out.append(queue_report(&status.queue).as_str());
    out
}

// Submission.

/// The line on a job that was submitted.
pub fn submitted_line(response: &SubmitResponse) -> (res: String)
    ensures
        res@ == line_text("Job submitted: "@, job_id::id_text(response.id)),
{
    let mut out = "Job submitted: ".to_string();
    out.append(id_string(response.id).as_str());
    out.append("\n");
    out
}

// Jobs.

/// A text that takes at most `max` bytes as it is; of a longer one, the characters that fit
/// into `max - 3` bytes (none where `max` is below 3), followed by three dots.
pub open spec fn shortened(s: Seq<char>, max: nat) -> Seq<char> {
    if output::byte_len(s) <= max {
        s
    } else {
        s.take(output::fitting_chars(s, if max < 3 { 0 } else { max - 3 }) as int) + "..."@
    }
}

/// Whether the cut that shortens a text to `max` bytes lies between two characters.
pub open spec fn can_shorten(s: Seq<char>, max: nat) -> bool {
    output::byte_len(s) <= max || is_char_boundary(
        encode_utf8(s),
        if max < 3 { 0 } else { max - 3 },
    )
}

/// Whether a text can be shortened to `max` bytes by a cut between two characters.
pub fn is_truncatable(s: &str, max: usize) -> (res: bool)
    ensures
        res == can_shorten(s@, max as nat),
{
    s.as_bytes().len() <= max || s.is_char_boundary(max.saturating_sub(3))
}

/// Shortens a text to `max` bytes, with three dots at its end where something was cut.
pub fn truncate(s: &str, max: usize) -> (res: String)
    requires
        can_shorten(s@, max as nat),
    ensures
        res@ == shortened(s@, max as nat),
{
    if s.as_bytes().len() <= max {
        s.to_string()
    } else {
        let end = max.saturating_sub(3);
        let (head, _tail) = s.split_at(end);
        proof {
            output::lemma_split_fits(s@, head@, end as int, end as int);
        }
        let mut out = head.to_string();
        out.append("...");
        out
    }
}

/// One line of the job table: five columns with a space between them.
pub open spec fn columns_text(
    id: Seq<char>,
    name: Seq<char>,
    priority: Seq<char>,
    status: Seq<char>,
    submitted: Seq<char>,
) -> Seq<char> {
    id + " "@ + text::padded(name, 20) + " "@ + text::padded(priority, 4) + " "@ + text::padded(
        status,
        12,
    ) + " "@ + text::padded(submitted, 20) + "\n"@
}

fn columns(id: &str, name: &str, priority: &str, status: &str, submitted: &str) -> (res: String)
    ensures
        res@ == columns_text(id@, name@, priority@, status@, submitted@),
{
    let mut out = id.to_string();
    out.append(" ");
    out.append(pad(name, 20).as_str());
    out.append(" ");
    out.append(pad(priority, 4).as_str());
    out.append(" ");
    out.append(pad(status, 12).as_str());
    out.append(" ");
    out.append(pad(submitted, 20).as_str());
    out.append("\n");
    out
}

/// What stands above the lines of a job table: the titles of the columns and a rule, or, where
/// there are no jobs, a line that says so.
pub fn table_head(jobs: usize) -> (res: String)
    ensures
        res@ == if jobs == 0 {
            "No jobs.\n"@
        } else {
            columns_text(
                text::padded("ID"@, 38),
                "NAME"@,
                "PRI"@,
                "STATUS"@,
                "SUBMITTED"@,
            ) + text::repeated('-', 96) + "\n"@
        },
{
    if jobs == 0 {
        return "No jobs.\n".to_string();
    }
    let mut out = columns(pad("ID", 38).as_str(), "NAME", "PRI", "STATUS", "SUBMITTED");
    out.append(text::rule(96).as_str());
    out.append("\n");
    out
}

/// The line of a job in the job table, given the text of its time of submission. The column of
/// identifiers is as wide as an identifier.
pub open spec fn row_text(job: JobView, submitted: Seq<char>) -> Seq<char> {
    columns_text(
        job_id::id_text(job.id),
        shortened(job.name, 20),
        text::decimal(job.priority as nat),
        job.status.label_text(),
        submitted,
    )
}

/// The line of a job in the job table, given the text of its time of submission.
pub fn job_row_with(job: &Job, submitted: &str) -> (res: String)
    requires
        can_shorten(job@.name, 20),
    ensures
        res@ == row_text(job@, submitted@),
{
    columns(
        id_string(job.id).as_str(),
        truncate(job.name.as_str(), 20).as_str(),
        decimal_string(job.priority as u64).as_str(),
        job.status.label(),
        submitted,
    )
}

/// The line of a job in the job table.
pub fn job_row(job: &Job) -> (res: String)
    requires
        can_shorten(job@.name, 20),
        job.submitted_at.valid(),
    ensures
        res@ == row_text(
            job@,
            time::utc_text(
                job.submitted_at.secs,
                job.submitted_at.nanos,
                "%Y-%m-%d %H:%M:%S"@,
            ),
        ),
{
    job_row_with(job, format_utc(job.submitted_at, "%Y-%m-%d %H:%M:%S").as_str())
}

// What the lines show.

/// The lines on the NPU show what is known of it, each value under its own label; what is not known
/// has no line.
pub proof fn law_npu_lines(npu: NpuStatusView)
    ensures
        ({
            let loaded = if npu.module_loaded { "yes"@ } else { "no"@ };
            let exists_text = if npu.device_exists { "yes"@ } else { "no"@ };
            let accessible = if npu.device_accessible { "yes"@ } else { "no"@ };
            let firmware = if npu.firmware_version is Some {
                "  Firmware:         "@ + npu.firmware_version->0 + "\n"@
            } else {
                Seq::<char>::empty()
            };
            let columns = if npu.columns is Some {
                "  Columns:          "@ + text::decimal(npu.columns->0 as nat) + "\n"@
            } else {
                Seq::<char>::empty()
            };
            let driver = if npu.driver_version is Some {
                "  Driver version:   "@ + npu.driver_version->0 + "\n"@
            } else {
                Seq::<char>::empty()
            };
            npu_text(npu) == "=== NPU Status ===\n"@ + ("  Module loaded:    "@ + loaded + "\n"@) + (
            "  Device exists:    "@ + exists_text + "\n"@) + ("  Device accessible: "@ + accessible
                + "\n"@) + firmware + columns + driver
        }),
{
}

/// The lines on the queue show each number under its own label.
pub proof fn law_queue_lines(q: QueueStats)
    ensures
        queue_text(q) == "=== Queue Stats ===\n"@ + ("  Pending:    "@ + text::decimal(
            q.pending as nat,
        ) + "\n"@) + ("  Running:    "@ + text::decimal(q.running as nat) + "\n"@) + (
        "  Completed:  "@ + text::decimal(q.completed as nat) + "\n"@) + ("  Failed:     "@
            + text::decimal(q.failed as nat) + "\n"@) + ("  Cancelled:  "@ + text::decimal(
            q.cancelled as nat,
        ) + "\n"@) + ("  Timed out:  "@ + text::decimal(q.timed_out as nat) + "\n"@) + (
        "  Total:      "@ + text::decimal(q.total as nat) + "\n"@),
{
}

/// A line is its label, its value and a line break.
pub proof fn law_line(label: Seq<char>, value: Seq<char>)
    ensures
        line_text(label, value) == label + value + "\n"@,
{
}

/// A text of at most `max` bytes stays as it is. Of a longer one the first `k` characters stay, as
/// many as take at most `max - 3` bytes (none where `max` is below 3), and three dots follow. Where
/// the cut lies between two characters, those that stay take exactly that many bytes.
pub proof fn law_shortened(s: Seq<char>, max: nat) -> (k: int)
    ensures
        encode_utf8(s).len() <= max ==> shortened(s, max) == s && can_shorten(s, max),
        encode_utf8(s).len() > max ==> {
            let room = if max < 3 {
                0int
            } else {
                max - 3
            };
            &&& 0 <= k < s.len()
            &&& shortened(s, max) == s.take(k) + seq!['.', '.', '.']
            &&& encode_utf8(s.take(k)).len() <= room < encode_utf8(s.take(k + 1)).len()
            &&& can_shorten(s, max) <==> is_char_boundary(encode_utf8(s), room)
        },
{
    let room = if max < 3 {
        0int
    } else {
        max - 3
    };
    reveal_strlit("...");
    assert("..."@ == seq!['.', '.', '.']);
    output::lemma_fitting_chars(s, room);
    output::fitting_chars(s, room) as int
}

/// The line of a job shows its identifier, its name, shortened to 20 bytes, its priority, the name
/// of its status in lower case and when it was submitted, in columns.
pub proof fn law_row(job: JobView, submitted: Seq<char>)
    ensures
        row_text(job, submitted) == job_id::id_text(job.id) + " "@ + text::padded(
            shortened(job.name, 20),
            20,
        ) + " "@ + text::padded(text::decimal(job.priority as nat), 4) + " "@ + text::padded(
            job.status.label_text(),
            12,
        ) + " "@ + text::padded(submitted, 20) + "\n"@,
{
}

} // verus!
