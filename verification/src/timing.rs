//! How long a run took and how fast it was.
use crate::clock::{elapsed, parse_rfc3339, rfc3339_value, seconds_between, Timestamp};
use crate::text::str_view;
use vstd::prelude::*;

verus! {

/// Seconds of a run, at least one, and its bytes per second, for the whole seconds that elapsed.
pub open spec fn timing(seconds: Option<int>, bytes: u64) -> (Option<u64>, Option<u64>) {
    match seconds {
        Some(n) => {
            let d = if n < 1 {
                1
            } else {
                n
            };
            (Some(d as u64), Some((bytes as int / d) as u64))
        },
        None => (None, None),
    }
}

/// Seconds of a run, at least one, and its bytes per second, for the whole seconds that elapsed.
pub fn timing_of(seconds: Option<i64>, bytes: u64) -> (res: (Option<u64>, Option<u64>))
    ensures
        res == timing(
            match seconds {
                Some(n) => Some(n as int),
                None => None,
            },
            bytes,
        ),
{
    match seconds {
        Some(n) => {
            let d: u64 = if n < 1 {
                1
            } else {
                n as u64
            };
            (Some(d), Some(bytes / d))
        },
        None => (None, None),
    }
}

/// The whole seconds from a recorded start to the end, where the start can be read.
pub open spec fn run_seconds(started_at: Option<Seq<char>>, end: Timestamp) -> Option<int> {
    match started_at {
        Some(s) => match rfc3339_value(s) {
            Some((secs, nanos)) => Some(elapsed(end.secs, end.nanos, secs, nanos)),
            None => None,
        },
        None => None,
    }
}

/// Wall-clock duration and approximate B/s from `started_at` to `finished_at`.
///
/// The duration is at least a second so that sub-second backups still report a throughput.
pub fn compute_throughput(started_at: Option<&str>, bytes: u64, finished_at: Timestamp) -> (res: (
    Option<u64>,
    Option<u64>,
))
    requires
        finished_at.valid(),
    ensures
        res == timing(run_seconds(str_view(started_at), finished_at), bytes),
{
    let seconds: Option<i64> = match started_at {
        Some(s) => match parse_rfc3339(s) {
            Some(start) => Some(seconds_between(start, finished_at)),
            None => None,
        },
        None => None,
    };
    timing_of(seconds, bytes)
}

/// A reported throughput, times the reported seconds, is at most the bytes, and a second more
/// would exceed them.
pub proof fn law_throughput_matches_bytes(seconds: int, bytes: u64)
    requires
        seconds <= u64::MAX,
    ensures
        ({
            let (d, bps) = timing(Some(seconds), bytes);
            &&& d->0 >= 1
            &&& bps->0 * d->0 <= bytes
            &&& bytes < (bps->0 + 1) * d->0
        }),
{
    let d = if seconds < 1 {
        1
    } else {
        seconds
    };
    let b = bytes as int;
    vstd::arithmetic::div_mod::lemma_fundamental_div_mod(b, d);
    vstd::arithmetic::div_mod::lemma_mod_bound(b, d);
    vstd::arithmetic::div_mod::lemma_div_is_ordered_by_denominator(b, 1, d);
    vstd::arithmetic::div_mod::lemma_div_basics(b);
    vstd::arithmetic::div_mod::lemma_div_pos_is_pos(b, d);
    assert((b / d) * d == d * (b / d)) by (nonlinear_arith);
    assert((b / d + 1) * d == d * (b / d) + d) by (nonlinear_arith);
}

/// A run of at least a second takes the seconds that elapsed, a shorter one takes one, and nothing
/// is said of a run whose start is not known.
pub proof fn law_duration_is_what_elapsed(seconds: int, bytes: u64)
    ensures
        1 <= seconds <= u64::MAX ==> timing(Some(seconds), bytes).0 == Some(seconds as u64),
        seconds < 1 ==> timing(Some(seconds), bytes) == timing(Some(1int), bytes) && timing(
            Some(seconds),
            bytes,
        ) == (Some(1u64), Some(bytes)),
        timing(None, bytes) == (None::<u64>, None::<u64>),
{
}

/// The seconds of a run are those from its recorded start to its end, where the start can be read.
pub proof fn law_run_is_timed_from_its_start(started_at: Seq<char>, end: Timestamp)
    ensures
        run_seconds(Some(started_at), end) is Some <==> rfc3339_value(started_at) is Some,
        rfc3339_value(started_at) matches Some((secs, nanos)) ==> run_seconds(Some(started_at), end)
            == Some(elapsed(end.secs, end.nanos, secs, nanos)),
        run_seconds(None, end) is None,
{
}

} // verus!
