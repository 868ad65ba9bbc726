//! Points in time (UTC) and their textual forms.
use chrono::{DateTime, Utc};
use vstd::prelude::*;

verus! {

/// The first representable second.
pub const MIN_SECS: i64 = -8_334_601_228_800;

/// The last representable second.
pub const MAX_SECS: i64 = 8_210_266_876_799;

/// The first second of the year 0000.
pub const FIRST_FOUR_DIGIT_SEC: i64 = -62_167_219_200;

/// The last second of the year 9999.
pub const LAST_FOUR_DIGIT_SEC: i64 = 253_402_300_799;

/// A point in time: whole seconds since 1970-01-01T00:00:00Z and nanoseconds beyond them. Within a
/// leap second the nanoseconds run on past one second.
#[derive(Clone, Copy, Debug, PartialEq, Eq, Structural)]
pub struct Timestamp {
    pub secs: i64,
    pub nanos: u32,
}

impl Timestamp {
    /// Whether the calendar can represent this point in time.
    pub open spec fn valid(self) -> bool {
        &&& MIN_SECS <= self.secs <= MAX_SECS
        &&& self.nanos < 2_000_000_000
        &&& self.nanos >= 1_000_000_000 ==> self.secs % 60 == 59
    }

    /// Whether this point in time lies outside leap seconds, in a year of at most four digits.
    pub open spec fn ordinary(self) -> bool {
        &&& FIRST_FOUR_DIGIT_SEC <= self.secs <= LAST_FOUR_DIGIT_SEC
        &&& self.nanos < 1_000_000_000
    }

    /// Whether this point in time is not after `other`.
    pub open spec fn le(self, other: Timestamp) -> bool {
        self.secs < other.secs || (self.secs == other.secs && self.nanos <= other.nanos)
    }

    /// Whether this point in time is not after `other`.
    pub fn at_or_before(self, other: Timestamp) -> (res: bool)
        ensures
            res == self.le(other),
    {
        self.secs < other.secs || (self.secs == other.secs && self.nanos <= other.nanos)
    }
}

/// The text `YYYYMMDDHHMMSS` for a point in time.
pub uninterp spec fn compact_text(secs: i64, nanos: u32) -> Seq<char>;

/// The RFC 3339 text for a point in time.
pub uninterp spec fn rfc3339_text(secs: i64, nanos: u32) -> Seq<char>;

/// The point in time that an RFC 3339 text stands for, as seconds and nanoseconds.
pub uninterp spec fn rfc3339_value(s: Seq<char>) -> Option<(i64, u32)>;

/// The whole seconds from the start to the end, both given as seconds and nanoseconds.
pub uninterp spec fn elapsed(
    end_secs: i64,
    end_nanos: u32,
    start_secs: i64,
    start_nanos: u32,
) -> int;

/// Division that rounds toward zero.
pub open spec fn toward_zero(n: int, d: int) -> int {
    if n >= 0 {
        n / d
    } else {
        -((-n) / d)
    }
}

/// `DateTime::format` of `chrono` with `%Y%m%d%H%M%S`: fourteen digits in the years 0000 to 9999;
/// a longer year is signed and takes up to seven characters.
#[verifier::external_body]
pub(crate) fn compact_stamp(t: Timestamp) -> (res: String)
    requires
        t.valid(),
    ensures
        res@ == compact_text(t.secs, t.nanos),
        14 <= res@.len() <= 17,
        forall|i: int| 0 <= i < res@.len() ==> '+' <= #[trigger] res@[i] <= '9',
        FIRST_FOUR_DIGIT_SEC <= t.secs <= LAST_FOUR_DIGIT_SEC ==> res@.len() == 14 && forall|
            i: int,
        |
            0 <= i < 14 ==> '0' <= #[trigger] res@[i] <= '9',
{
    let at: DateTime<Utc> = DateTime::from_timestamp(t.secs, t.nanos).unwrap_or_default();
    at.format("%Y%m%d%H%M%S").to_string()
}

/// `DateTime::to_rfc3339` of `chrono`: a function of the point in time, which
/// `DateTime::parse_from_rfc3339` reads back outside leap seconds in the years 0000 to 9999.
#[verifier::external_body]
pub(crate) fn rfc3339(t: Timestamp) -> (res: String)
    requires
        t.valid(),
    ensures
        res@ == rfc3339_text(t.secs, t.nanos),
        t.ordinary() ==> rfc3339_value(res@) == Some((t.secs, t.nanos)),
{
    let at: DateTime<Utc> = DateTime::from_timestamp(t.secs, t.nanos).unwrap_or_default();
    at.to_rfc3339()
}

/// `DateTime::parse_from_rfc3339` of `chrono`, taken to UTC: a function of the text.
#[verifier::external_body]
pub(crate) fn parse_rfc3339(s: &str) -> (res: Option<Timestamp>)
    ensures
        match res {
            Some(t) => t.valid() && rfc3339_value(s@) == Some((t.secs, t.nanos)),
            None => rfc3339_value(s@) is None,
        },
{
    let at = DateTime::parse_from_rfc3339(s).ok()?.with_timezone(&Utc);
    Some(Timestamp { secs: at.timestamp(), nanos: at.timestamp_subsec_nanos() })
}

/// `DateTime::signed_duration_since` and `TimeDelta::num_seconds` of `chrono`: the whole seconds
/// between two points in time, rounded toward zero; outside leap seconds that is the difference of
/// the nanosecond counts.
#[verifier::external_body]
pub(crate) fn seconds_between(start: Timestamp, end: Timestamp) -> (res: i64)
    requires
        start.valid(),
        end.valid(),
    ensures
        res == elapsed(end.secs, end.nanos, start.secs, start.nanos),
        start.nanos < 1_000_000_000 && end.nanos < 1_000_000_000 ==> res == toward_zero(
            (end.secs - start.secs) * 1_000_000_000 + (end.nanos - start.nanos),
            1_000_000_000,
        ),
{
    let from: DateTime<Utc> = DateTime::from_timestamp(start.secs, start.nanos).unwrap_or_default();
    let to: DateTime<Utc> = DateTime::from_timestamp(end.secs, end.nanos).unwrap_or_default();
    to.signed_duration_since(from).num_seconds()
}

/// `Utc::now` of `chrono`: the time of the machine's clock, never within a leap second. It panics
/// where that clock stands before 1970.
#[verifier::external_body]
pub(crate) fn now() -> (res: Timestamp)
    ensures
        res.valid(),
        res.nanos < 1_000_000_000,
{
    let at = Utc::now();
    Timestamp { secs: at.timestamp(), nanos: at.timestamp_subsec_nanos() }
}

/// Points in time are in a total order: a later second is later, and within a second the
/// nanoseconds decide.
pub proof fn law_points_in_time_are_ordered(a: Timestamp, b: Timestamp, c: Timestamp)
    ensures
        a.le(b) || b.le(a),
        a.le(b) && b.le(a) ==> a == b,
        a.le(b) && b.le(c) ==> a.le(c),
        a.secs < b.secs ==> a.le(b) && !b.le(a),
        a.secs == b.secs && a.nanos < b.nanos ==> a.le(b) && !b.le(a),
{
}

} // verus!
