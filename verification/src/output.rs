//! The output of jobs: reading it as text and limiting its size.

use vstd::prelude::*;
use vstd::utf8::*;

verus! {

/// How many bytes of each output stream a job keeps: 1 MB.
pub const MAX_OUTPUT_BYTES: usize = 1_048_576;

/// How many bytes a text takes in UTF-8.
pub open spec fn byte_len(s: Seq<char>) -> nat {
    encode_utf8(s).len()
}

/// How many of the first characters of a text fit into `max` bytes.
pub open spec fn fitting_chars(s: Seq<char>, max: int) -> nat
    decreases s.len(),
{
    if s.len() == 0 || encode_scalar(s[0] as u32).len() > max {
        0
    } else {
        1 + fitting_chars(s.drop_first(), max - encode_scalar(s[0] as u32).len())
    }
}

/// The note at the end of an output that was cut.
pub open spec fn truncation_note() -> Seq<char> {
    "\n... [OUTPUT TRUNCATED — exceeded 1 MB limit]"@
}

/// A text that takes at most `max` bytes as it is; of a longer one, the characters that fit
/// into `max` bytes, followed by a note.
pub open spec fn truncated(s: Seq<char>, max: nat) -> Seq<char> {
    if byte_len(s) <= max {
        s
    } else {
        s.take(fitting_chars(s, max as int) as int) + truncation_note()
    }
}

/// The bytes of a text are those of its parts, one after the other.
pub proof fn lemma_encode_concat(a: Seq<char>, b: Seq<char>)
    ensures
        encode_utf8(a + b) == encode_utf8(a) + encode_utf8(b),
    decreases a.len(),
{
    if a.len() == 0 {
        assert(a + b == b);
        assert(encode_utf8(a) + encode_utf8(b) == encode_utf8(b));
    } else {
        lemma_encode_concat(a.drop_first(), b);
        assert((a + b).drop_first() == a.drop_first() + b);
        assert((a + b)[0] == a[0]);
        let first = encode_scalar(a[0] as u32);
        assert(first + (encode_utf8(a.drop_first()) + encode_utf8(b)) == (first + encode_utf8(
            a.drop_first(),
        )) + encode_utf8(b));
    }
}

/// The bytes of the first `k` characters end at a character boundary.
pub proof fn lemma_prefix_boundary(s: Seq<char>, k: int)
    requires
        0 <= k <= s.len(),
    ensures
        is_char_boundary(encode_utf8(s), byte_len(s.take(k)) as int),
        byte_len(s.take(k)) <= byte_len(s),
    decreases k,
{
    broadcast use encode_utf8_valid_utf8;

    assert(s == s.take(k) + s.skip(k));
    lemma_encode_concat(s.take(k), s.skip(k));
    if k > 0 {
        let bytes = encode_utf8(s);
        encode_utf8_first_scalar(s);
        assert(pop_first_scalar(bytes) == encode_utf8(s.drop_first()));
        lemma_prefix_boundary(s.drop_first(), k - 1);
        assert(s.take(k).drop_first() == s.drop_first().take(k - 1));
        assert(s.take(k)[0] == s[0]);
        assert(byte_len(s.take(k)) == length_of_first_scalar(bytes) + byte_len(
            s.drop_first().take(k - 1),
        ));
    }
}

/// The first `k` characters fit into `max` bytes and one more does not: then `k` is the number
/// of characters that fit.
proof fn lemma_fitting_chars_is(s: Seq<char>, k: int, max: int)
    requires
        0 <= k < s.len(),
        byte_len(s.take(k)) <= max < byte_len(s.take(k + 1)),
    ensures
        fitting_chars(s, max) == k,
    decreases k,
{
    let first = encode_scalar(s[0] as u32).len();
    assert(s.take(k + 1).drop_first() == s.drop_first().take(k));
    assert(s.take(k + 1)[0] == s[0]);
    if k == 0 {
        assert(byte_len(s.take(1)) == first + byte_len(s.drop_first().take(0)));
        assert(s.drop_first().take(0) == Seq::<char>::empty());
    } else {
        assert(s.take(k).drop_first() == s.drop_first().take(k - 1));
        assert(s.take(k)[0] == s[0]);
        lemma_fitting_chars_is(s.drop_first(), k - 1, max - first);
    }
}

/// The characters that fit take at most `max` bytes; where some do not fit, one more
/// character takes more than `max` bytes.
pub proof fn lemma_fitting_chars(s: Seq<char>, max: int)
    requires
        0 <= max,
    ensures
        fitting_chars(s, max) <= s.len(),
        byte_len(s.take(fitting_chars(s, max) as int)) <= max,
        fitting_chars(s, max) < s.len() ==> byte_len(
            s.take(fitting_chars(s, max) as int + 1),
        ) > max,
        byte_len(s) > max ==> fitting_chars(s, max) < s.len(),
    decreases s.len(),
{
    let k = fitting_chars(s, max);
    if s.len() == 0 {
        assert(s.take(0) == s);
    } else {
        let first = encode_scalar(s[0] as u32).len();
        if first > max {
            assert(s.take(0) == Seq::<char>::empty());
        } else {
            lemma_fitting_chars(s.drop_first(), max - first);
            assert(s.take(k as int)[0] == s[0]);
            assert(s.take(k as int).drop_first() == s.drop_first().take(k - 1));
        }
        if k < s.len() {
            assert(s.take(k as int + 1)[0] == s[0]);
            assert(s.take(k as int + 1).drop_first() == s.drop_first().take(k as int));
        }
    }
}

/// An output that takes at most `max` bytes stays as it is. Of a longer one the first characters
/// stay, as many as fit into `max` bytes, and a note follows; so a truncated output takes at most
/// `max` bytes and those of the note.
pub proof fn law_truncated(s: Seq<char>, max: nat)
    ensures
        byte_len(s) <= max ==> truncated(s, max) == s,
        byte_len(s) > max ==> {
            let k = fitting_chars(s, max as int) as int;
            &&& k < s.len()
            &&& truncated(s, max) == s.take(k) + truncation_note()
            &&& byte_len(s.take(k)) <= max < byte_len(s.take(k + 1))
        },
        byte_len(truncated(s, max)) <= max + byte_len(truncation_note()),
{
    if byte_len(s) > max {
        lemma_fitting_chars(s, max as int);
        lemma_encode_concat(s.take(fitting_chars(s, max as int) as int), truncation_note());
    }
}

/// What follows more than `max` bytes of a text does not change how the text is truncated.
pub proof fn lemma_truncated_prefix(s: Seq<char>, rest: Seq<char>, max: nat)
    requires
        byte_len(s) > max,
    ensures
        truncated(s + rest, max) == truncated(s, max),
{
    let k = fitting_chars(s, max as int) as int;
    lemma_fitting_chars(s, max as int);
    lemma_encode_concat(s, rest);
    assert((s + rest).take(k) == s.take(k));
    assert((s + rest).take(k + 1) == s.take(k + 1));
    lemma_fitting_chars_is(s + rest, k, max as int);
}

/// The part of a text before the last character boundary within `max` bytes consists of the
/// characters that fit into `max` bytes.
pub proof fn lemma_split_fits(s: Seq<char>, head: Seq<char>, end: int, max: int)
    requires
        0 <= end <= max < byte_len(s),
        is_char_boundary(encode_utf8(s), end),
        encode_utf8(head) == encode_utf8(s).subrange(0, end),
        forall|i: int| end < i <= max ==> !is_char_boundary(encode_utf8(s), i),
    ensures
        head == s.take(fitting_chars(s, max) as int),
{
    broadcast use encode_utf8_valid_utf8;

    let bytes = encode_utf8(s);
    let k = head.len() as int;
    encode_utf8_decode_utf8(head);
    encode_utf8_decode_utf8(s);
    decode_utf8_split(bytes, end);
    assert(s == head + decode_utf8(bytes.subrange(end, bytes.len() as int)));
    assert(s.take(k) == head);
    assert(k < s.len()) by {
        assert(k == s.len() ==> s.take(k) == s);
    }
    lemma_prefix_boundary(s, k + 1);
    assert(s.take(k + 1) == head + seq![s[k]]);
    lemma_encode_concat(head, seq![s[k]]);
    assert(encode_utf8(seq![s[k]]).len() > 0);
    lemma_fitting_chars_is(s, k, max);
}

/// Limits a text to `max_bytes` bytes, cutting between characters, with a note at the end
/// where something was cut.
pub fn truncate_output(s: String, max_bytes: usize) -> (res: String)
    ensures
        res@ == truncated(s@, max_bytes as nat),
{
    broadcast use encode_utf8_valid_utf8;

    let text: &str = s.as_str();
    let ghost bytes = encode_utf8(s@);
    if text.as_bytes().len() <= max_bytes {
        return s;
    }
    let mut end: usize = max_bytes;
    proof {
        is_char_boundary_start_end_of_seq(bytes);
    }
    while end > 0 && !text.is_char_boundary(end)
        invariant
            text@ == s@,
            bytes == encode_utf8(s@),
            valid_utf8(bytes),
            end <= max_bytes < bytes.len(),
            is_char_boundary(bytes, 0),
            forall|i: int| end < i <= max_bytes ==> !is_char_boundary(bytes, i),
        decreases end,
    {
        end = end - 1;
    }
    let (head, _tail) = text.split_at(end);
    proof {
        lemma_split_fits(s@, head@, end as int, max_bytes as int);
    }
    let mut out = head.to_string();
    out.append("\n... [OUTPUT TRUNCATED — exceeded 1 MB limit]");
    out
}

/// What `String::from_utf8_lossy` makes of a sequence of bytes.
pub uninterp spec fn utf8_lossy(bytes: Seq<u8>) -> Seq<char>;

/// Reads bytes as text.
///
/// Trusted: `String::from_utf8_lossy` returns the text that valid UTF-8 encodes, and is a
/// function of the bytes also where they are not valid UTF-8: it then puts replacement
/// characters in for the sequences that are not. It replaces nothing else, so where the bytes
/// are valid UTF-8, the text of any longer sequence that starts with them starts with their text.
/// How many bytes go into one replacement character is not stated.
#[verifier::external_body]
pub(crate) fn lossy_string(bytes: &[u8]) -> (res: String)
    ensures
        res@ == utf8_lossy(bytes@),
        valid_utf8(bytes@) ==> res@ == decode_utf8(bytes@),
        valid_utf8(bytes@) ==> forall|longer: Seq<u8>|
            bytes@.is_prefix_of(longer) ==> res@.is_prefix_of(#[trigger] utf8_lossy(longer)),
{
    String::from_utf8_lossy(bytes).into_owned()
}

/// An output of at most `max` bytes stays as it is. Of a longer one the first `k` characters stay,
/// where `k` is such that they take at most `max` bytes and one more would not, and the note that
/// something was cut follows.
pub proof fn law_output_cut(s: Seq<char>, max: nat) -> (k: int)
    ensures
        encode_utf8(s).len() <= max ==> truncated(s, max) == s,
        encode_utf8(s).len() > max ==> {
            &&& 0 <= k < s.len()
            &&& encode_utf8(s.take(k)).len() <= max
            &&& encode_utf8(s.take(k + 1)).len() > max
            &&& truncated(s, max) == s.take(k)
                + "\n... [OUTPUT TRUNCATED — exceeded 1 MB limit]"@
        },
{
    law_truncated(s, max);
    fitting_chars(s, max as int) as int
}

} // verus!
