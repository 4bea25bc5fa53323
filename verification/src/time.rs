//! Points in time, in UTC.

use vstd::prelude::*;

verus! {

/// A point in time: seconds since the start of 1970 in UTC, leap seconds not counted, and
/// the nanoseconds since that second. Nanoseconds from 1,000,000,000 on denote a leap second.
#[derive(Debug, Clone, Copy, PartialEq, Eq, Structural)]
pub struct Timestamp {
    pub secs: i64,
    pub nanos: u32,
}

impl Timestamp {
    /// Whether the values denote a point in time: the date lies between the years -262143 and
    /// 262142, and a leap second follows the last second of a minute.
    pub open spec fn valid(self) -> bool {
        &&& -8_334_601_228_800 <= self.secs <= 8_210_266_876_799
        &&& self.nanos < 2_000_000_000
        &&& self.nanos >= 1_000_000_000 ==> (self.secs as int) % 60 == 59
    }

    /// Whether this point in time lies before another.
    pub open spec fn before(self, other: Timestamp) -> bool {
        self.secs < other.secs || (self.secs == other.secs && self.nanos < other.nanos)
    }

    /// Whether the values denote a point in time.
    pub fn is_valid(&self) -> (res: bool)
        ensures
            res == self.valid(),
    {
        if self.secs < -8_334_601_228_800 || 8_210_266_876_799 < self.secs || self.nanos
            >= 2_000_000_000 {
            return false;
        }
        // An offset of whole minutes makes the count of seconds non-negative.
        let shifted: i64 = self.secs + 8_334_601_228_800;
        self.nanos < 1_000_000_000 || shifted % 60 == 59
    }

    /// Whether this point in time lies before another.
    pub fn is_before(&self, other: &Timestamp) -> (res: bool)
        ensures
            res == self.before(*other),
    {
        self.secs < other.secs || (self.secs == other.secs && self.nanos < other.nanos)
    }
}

/// The current time.
///
/// Trusted: `chrono::Utc::now` returns a `DateTime<Utc>`, whose seconds and nanoseconds since
/// 1970 denote a point in time and never a leap second. Which point in time it is depends on
/// the machine's clock and is left open; with a clock that stands before 1970 the call panics.
#[verifier::external_body]
pub(crate) fn utc_now() -> (res: Timestamp)
    ensures
        res.valid(),
        res.nanos < 1_000_000_000,
{
    let now = chrono::Utc::now();
    Timestamp { secs: now.timestamp(), nanos: now.timestamp_subsec_nanos() }
}

/// What `chrono`'s `DateTime<Utc>::format` writes for a point in time, given in seconds and
/// nanoseconds, and a format.
pub uninterp spec fn utc_text(secs: i64, nanos: u32, format: Seq<char>) -> Seq<char>;

/// Writes a point in time as `2015-05-15 00:00:00`.
///
/// Trusted: `chrono::DateTime::<Utc>::from_timestamp` accepts every valid pair of seconds and
/// nanoseconds, and `format` of the date, turned into a `String`, is a function of the point
/// in time and the format. The one format that is admitted is well-formed.
#[verifier::external_body]
pub(crate) fn format_utc(at: Timestamp, format: &str) -> (res: String)
    requires
        at.valid(),
        format@ == "%Y-%m-%d %H:%M:%S"@,
    ensures
        res@ == utc_text(at.secs, at.nanos, format@),
{
    chrono::DateTime::<chrono::Utc>::from_timestamp(at.secs, at.nanos).unwrap().format(format).to_string()
}

/// Of two points in time with different seconds the one with fewer seconds since 1970 lies before
/// the other; of two in the same second, the one with fewer nanoseconds. Nothing lies before
/// itself.
pub proof fn law_time_order(a: Timestamp, b: Timestamp)
    ensures
        a.secs < b.secs ==> a.before(b) && !b.before(a),
        a.secs == b.secs && a.nanos < b.nanos ==> a.before(b) && !b.before(a),
        a.secs == b.secs && a.nanos == b.nanos ==> !a.before(b) && !b.before(a),
{
}

/// Within the years that are covered every second with less than a full second of nanoseconds is
/// a point in time, and so is a leap second after the last second of a minute. Nothing else is.
pub proof fn law_valid_times(t: Timestamp)
    ensures
        t.secs < -8_334_601_228_800 || t.secs > 8_210_266_876_799 ==> !t.valid(),
        -8_334_601_228_800 <= t.secs <= 8_210_266_876_799 && t.nanos < 1_000_000_000 ==> t.valid(),
        -8_334_601_228_800 <= t.secs <= 8_210_266_876_799 && 1_000_000_000 <= t.nanos
            < 2_000_000_000 ==> (t.valid() <==> (t.secs as int) % 60 == 59),
        t.nanos >= 2_000_000_000 ==> !t.valid(),
{
}

} // verus!
