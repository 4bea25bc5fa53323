//! Capturing the output of a process in bounded memory, however much it writes.

use vstd::prelude::*;
use vstd::utf8::*;
use crate::job::JobView;
use crate::output;
use crate::output::{lossy_string, MAX_OUTPUT_BYTES};
use crate::run;
use crate::run::RunResultView;
use crate::text;
use crate::time::Timestamp;

verus! {

/// How many bytes of an output are held: as many as a job keeps, one byte more that shows that
/// there are too many, and those of a character that is not to be cut.
pub const CAPTURE_BYTES: usize = MAX_OUTPUT_BYTES + 5;

/// The first position from `i` on that does not lie within a character of UTF-8; the end of the
/// bytes where there is none.
pub open spec fn next_boundary(bytes: Seq<u8>, i: int) -> int
    decreases bytes.len() - i,
{
    if i >= bytes.len() || !is_continuation_byte(bytes[i]) {
        i
    } else {
        next_boundary(bytes, i + 1)
    }
}

/// What is captured of an output: all of a short one, and of a long one the bytes up to the first
/// character that starts beyond what a job keeps.
pub open spec fn captured(all: Seq<u8>) -> Seq<u8> {
    if all.len() < CAPTURE_BYTES {
        all
    } else {
        all.take(next_boundary(all.take(CAPTURE_BYTES as int), MAX_OUTPUT_BYTES + 1))
    }
}

/// What an output has brought so far.
pub struct Capture {
    held: Vec<u8>,
    seen: Ghost<Seq<u8>>,
}

impl View for Capture {
    type V = Seq<u8>;

    /// All bytes that the output has brought, held or not.
    closed spec fn view(&self) -> Seq<u8> {
        self.seen@
    }
}

impl Capture {
    /// The first bytes that the output has brought are held, as far as they may be.
    pub closed spec fn wf(&self) -> bool {
        self.held@ == if self.seen@.len() < CAPTURE_BYTES {
            self.seen@
        } else {
            self.seen@.take(CAPTURE_BYTES as int)
        }
    }

    /// An output that has brought nothing.
    pub fn new() -> (res: Capture)
        ensures
            res.wf(),
            res@ == Seq::<u8>::empty(),
    {
        Capture { held: Vec::new(), seen: Ghost(Seq::empty()) }
    }

    /// Takes further bytes of the output in.
    pub fn add(&mut self, chunk: &[u8])
        requires
            old(self).wf(),
        ensures
            final(self).wf(),
            final(self)@ == old(self)@ + chunk@,
    {
        let ghost before = self.seen@;
        let mut i: usize = 0;
        assert(chunk@.take(0) == Seq::<u8>::empty());
        while i < chunk.len() && self.held.len() < CAPTURE_BYTES
            invariant
                i <= chunk@.len(),
                self.held@.len() <= CAPTURE_BYTES,
                before.len() < CAPTURE_BYTES ==> self.held@ == before + chunk@.take(i as int),
                before.len() >= CAPTURE_BYTES ==> self.held@ == before.take(CAPTURE_BYTES as int),
            decreases chunk@.len() - i,
        {
            self.held.push(chunk[i]);
            assert(chunk@.take(i + 1) == chunk@.take(i as int).push(chunk@[i as int]));
            i = i + 1;
        }
        let ghost all = before + chunk@;
        self.seen = Ghost(all);
        proof {
            if i == chunk@.len() {
                assert(chunk@.take(i as int) == chunk@);
            }
            if all.len() >= CAPTURE_BYTES {
                assert(self.held@ == all.take(CAPTURE_BYTES as int));
            }
        }
    }

    /// What is captured of the output, now that it has come to its end.
    pub fn finish(self) -> (res: Vec<u8>)
        requires
            self.wf(),
        ensures
            res@ == captured(self@),
    {
        let mut held = self.held;
        let ghost all = self.seen@;
        if held.len() < CAPTURE_BYTES {
            return held;
        }
        let ghost first = held@;
        let mut end: usize = MAX_OUTPUT_BYTES + 1;
        while end < held.len() && 0x80 <= held[end] && held[end] <= 0xbf
            invariant
                held@ == first,
                end <= first.len() == CAPTURE_BYTES,
                next_boundary(first, end as int) == next_boundary(first, MAX_OUTPUT_BYTES + 1),
            decreases first.len() - end,
        {
            end = end + 1;
        }
        held.truncate(end);
        assert(first.take(end as int) == all.take(end as int));
        held
    }
}

/// The first position outside a character lies no further than any other.
proof fn lemma_next_boundary(bytes: Seq<u8>, i: int, p: int)
    requires
        0 <= i <= p < bytes.len(),
        !is_continuation_byte(bytes[p]),
    ensures
        i <= next_boundary(bytes, i) <= p,
        !is_continuation_byte(bytes[next_boundary(bytes, i)]),
    decreases p - i,
{
    if is_continuation_byte(bytes[i]) {
        lemma_next_boundary(bytes, i + 1, p);
    }
}

/// Never are more bytes captured than may be held.
pub proof fn law_capture_bounded(all: Seq<u8>)
    ensures
        captured(all).len() <= CAPTURE_BYTES,
        captured(all).len() <= all.len(),
{
    if all.len() >= CAPTURE_BYTES {
        lemma_next_boundary_range(all.take(CAPTURE_BYTES as int), MAX_OUTPUT_BYTES + 1);
    }
}

/// The first position outside a character lies within the bytes or at their end.
proof fn lemma_next_boundary_range(bytes: Seq<u8>, i: int)
    requires
        0 <= i <= bytes.len(),
    ensures
        i <= next_boundary(bytes, i) <= bytes.len(),
    decreases bytes.len() - i,
{
    if i < bytes.len() && is_continuation_byte(bytes[i]) {
        lemma_next_boundary_range(bytes, i + 1);
    }
}

/// Whether a job keeps the same of a part of an output as of the whole: the part is the whole, or
/// a first part of it that takes more bytes than a job keeps.
pub open spec fn keeps_enough(part: Seq<char>, whole: Seq<char>) -> bool {
    part == whole || (part.is_prefix_of(whole) && output::byte_len(part) > MAX_OUTPUT_BYTES)
}

/// More bytes than a job keeps are captured of a long output.
proof fn lemma_captured_long(all: Seq<u8>)
    requires
        all.len() >= CAPTURE_BYTES,
    ensures
        MAX_OUTPUT_BYTES < captured(all).len(),
        captured(all).is_prefix_of(all),
{
    lemma_next_boundary_range(all.take(CAPTURE_BYTES as int), MAX_OUTPUT_BYTES + 1);
}

/// What is captured of UTF-8 is UTF-8 again, and encodes enough of the text.
pub proof fn law_captured_text(all: Seq<u8>)
    requires
        valid_utf8(all),
    ensures
        valid_utf8(captured(all)),
        keeps_enough(decode_utf8(captured(all)), decode_utf8(all)),
{
    if all.len() >= CAPTURE_BYTES {
        let max = MAX_OUTPUT_BYTES as int;
        let s = decode_utf8(all);
        decode_utf8_encode_utf8(all);
        assert(output::byte_len(s) == all.len());
        // The first character that no longer fits ends at most four bytes beyond the limit.
        let m = output::fitting_chars(s, max) as int;
        output::lemma_fitting_chars(s, max);
        assert(s.take(m + 1) == s.take(m) + seq![s[m]]);
        output::lemma_encode_concat(s.take(m), seq![s[m]]);
        char_is_scalar(s[m]);
        assert(encode_utf8(seq![s[m]]) == encode_scalar(s[m] as u32)) by {
            assert(seq![s[m]].drop_first() == Seq::<char>::empty());
            reveal_with_fuel(encode_utf8, 2);
        }
        let p = output::byte_len(s.take(m + 1)) as int;
        output::lemma_prefix_boundary(s, m + 1);
        is_char_boundary_iff_not_is_continuation_byte(all, p);
        let first = all.take(CAPTURE_BYTES as int);
        lemma_next_boundary(first, max + 1, p);
        let k = next_boundary(first, max + 1);
        is_char_boundary_iff_not_is_continuation_byte(all, k);
        assert(all.take(k) == all.subrange(0, k));
        valid_utf8_split(all, k);
        decode_utf8_split(all, k);
        decode_utf8_encode_utf8(all.take(k));
    }
}

/// Truncating enough of an output gives what truncating all of it gives, whatever stands before.
proof fn lemma_enough_truncated(head: Seq<char>, part: Seq<char>, whole: Seq<char>)
    requires
        keeps_enough(part, whole),
    ensures
        output::truncated(head + part, MAX_OUTPUT_BYTES as nat) == output::truncated(
            head + whole,
            MAX_OUTPUT_BYTES as nat,
        ),
        part.len() == 0 <==> whole.len() == 0,
{
    if part != whole {
        let rest = whole.skip(part.len() as int);
        assert(part.len() > 0);
        output::lemma_encode_concat(head, part);
        output::lemma_truncated_prefix(head + part, rest, MAX_OUTPUT_BYTES as nat);
        assert(head + whole == head + part + rest);
    }
}

/// Enough of the outputs is as good as all of them: the job is the same, whether the process ended
/// by itself or took too long, as if all that was written had been held.
pub proof fn law_capture_keeps_outputs(
    job: JobView,
    exit_code: i32,
    timeout_secs: u64,
    now: Timestamp,
    out_part: Seq<char>,
    out: Seq<char>,
    err_part: Seq<char>,
    err: Seq<char>,
)
    requires
        keeps_enough(out_part, out),
        keeps_enough(err_part, err),
    ensures
        run::completed_job(
            job,
            RunResultView::Finished { exit_code, stdout: out_part, stderr: err_part },
            now,
        ) == run::completed_job(
            job,
            RunResultView::Finished { exit_code, stdout: out, stderr: err },
            now,
        ),
        run::completed_job(
            job,
            RunResultView::TimedOut {
                stdout: out_part,
                message: run::timeout_message(timeout_secs, err_part),
            },
            now,
        ) == run::completed_job(
            job,
            RunResultView::TimedOut {
                stdout: out,
                message: run::timeout_message(timeout_secs, err),
            },
            now,
        ),
{
    let empty = Seq::<char>::empty();
    lemma_enough_truncated(empty, out_part, out);
    lemma_enough_truncated(empty, err_part, err);
    assert(empty + out == out && empty + out_part == out_part);
    assert(empty + err == err && empty + err_part == err_part);
    lemma_enough_truncated(
        "Job timed out after "@ + text::decimal(timeout_secs as nat)
            + " seconds. Partial stderr:\n"@,
        err_part,
        err,
    );
}

/// The text that came through a pipe of a process, which has come to its end; no pipe gives an
/// empty text. The text is that of what was captured: the whole text of a short output, whatever
/// its bytes are, and enough of the text of a long one, where what was captured is UTF-8. Of a
/// long output whose captured part is not UTF-8 it is left open whether the text is enough.
pub fn read_pipe(pipe: Option<Capture>) -> (res: String)
    requires
        pipe is Some ==> pipe->0.wf(),
    ensures
        match pipe {
            Some(capture) => {
                &&& res@ == output::utf8_lossy(captured(capture@))
                &&& valid_utf8(captured(capture@)) ==> res@ == decode_utf8(captured(capture@))
                &&& capture@.len() < CAPTURE_BYTES || valid_utf8(captured(capture@))
                    ==> keeps_enough(res@, output::utf8_lossy(capture@))
            },
            None => res@.len() == 0,
        },
{
    match pipe {
        Some(capture) => {
            let ghost all = capture@;
            let bytes = capture.finish();
            let res = lossy_string(bytes.as_slice());
            proof {
                if all.len() >= CAPTURE_BYTES && valid_utf8(captured(all)) {
                    lemma_captured_long(all);
                    decode_utf8_encode_utf8(captured(all));
                }
            }
            res
        },
        None => String::new(),
    }
}

/// What is captured of an output is a first part of it: all of it where it takes less than the
/// bytes that may be held; else more than 1 MB, up to the first byte beyond that which does not
/// continue a character, or as much as may be held.
pub proof fn law_captured(all: Seq<u8>)
    ensures
        all.len() < 1_048_581 ==> captured(all) == all,
        all.len() >= 1_048_581 ==> {
            let n = captured(all).len() as int;
            &&& 1_048_577 <= n <= 1_048_581
            &&& captured(all) == all.take(n)
            &&& forall|i: int| 1_048_577 <= i < n ==> 0x80 <= #[trigger] all[i] <= 0xbf
            &&& n < 1_048_581 ==> !(0x80 <= all[n] <= 0xbf)
        },
{
    if all.len() >= CAPTURE_BYTES {
        let first = all.take(CAPTURE_BYTES as int);
        lemma_next_boundary_range(first, MAX_OUTPUT_BYTES + 1);
        lemma_next_boundary_first(first, MAX_OUTPUT_BYTES + 1);
        assert(forall|i: int| 0 <= i < CAPTURE_BYTES ==> first[i] == #[trigger] all[i]);
    }
}

/// The first position outside a character has only positions within characters before it.
proof fn lemma_next_boundary_first(bytes: Seq<u8>, i: int)
    requires
        0 <= i <= bytes.len(),
    ensures
        forall|j: int| i <= j < next_boundary(bytes, i) ==> 0x80 <= #[trigger] bytes[j] <= 0xbf,
        next_boundary(bytes, i) < bytes.len() ==> !(0x80 <= bytes[next_boundary(bytes, i)] <= 0xbf),
    decreases bytes.len() - i,
{
    if i < bytes.len() && is_continuation_byte(bytes[i]) {
        lemma_next_boundary_first(bytes, i + 1);
    }
}

/// Enough of an output is all of it, or a first part of it of more than 1 MB.
pub proof fn law_keeps_enough(part: Seq<char>, whole: Seq<char>)
    ensures
        keeps_enough(part, whole) <==> part == whole || (part.len() <= whole.len() && part
            == whole.take(part.len() as int) && encode_utf8(part).len() > 1_048_576),
{
    assert(whole.take(part.len() as int) == whole.subrange(0, part.len() as int));
}

} // verus!
