//! Points in time as plain values, and the calls into `chrono` that read them
//! from text.
use vstd::prelude::*;
use chrono::{DateTime, Utc};

verus! {

/// A point in time: whole seconds since the Unix epoch (UTC) and the
/// nanoseconds past that second.
#[derive(Clone, Copy, Debug, PartialEq, Eq, Structural)]
pub struct Timestamp {
    pub secs: i64,
    pub nanos: u32,
}

/// The second of its day (UTC) that a timestamp falls in: `0..86400`.
pub open spec fn second_of_day(t: Timestamp) -> int {
    (t.secs as int) % 86400
}

/// Whether a timestamp stands inside a leap second: chrono marks one by
/// nanoseconds of a second or more past the second before it.
pub open spec fn in_leap_second(t: Timestamp) -> bool {
    t.nanos >= 1000000000
}

/// The second that chrono adds to (or takes from) the time between two
/// timestamps when the one that comes first in its day stands inside a leap
/// second, which the whole seconds since the epoch do not count.
pub open spec fn leap_correction(earlier: Timestamp, later: Timestamp) -> int {
    if second_of_day(later) > second_of_day(earlier) && in_leap_second(earlier) {
        1
    } else if second_of_day(later) < second_of_day(earlier) && in_leap_second(later) {
        -1
    } else {
        0
    }
}

/// The time from `earlier` to `later` in nanoseconds, as chrono's
/// `later - earlier` counts it.
pub open spec fn span_nanos(earlier: Timestamp, later: Timestamp) -> int {
    (later.secs - earlier.secs + leap_correction(earlier, later)) * 1000000000 + later.nanos
        - earlier.nanos
}

/// The time between two points is the difference of their seconds and
/// nanoseconds where neither stands inside a leap second; it is nothing from a
/// point to itself, and going the other way gives its negation.
pub proof fn law_time_between_is_the_difference(earlier: Timestamp, later: Timestamp)
    ensures
        !in_leap_second(earlier) && !in_leap_second(later) ==> span_nanos(earlier, later) == (
        later.secs - earlier.secs) * 1000000000 + later.nanos - earlier.nanos,
        span_nanos(earlier, earlier) == 0,
        span_nanos(later, earlier) == -span_nanos(earlier, later),
{
    assert(span_nanos(later, earlier) == -span_nanos(earlier, later)) by (nonlinear_arith)
        requires
            leap_correction(later, earlier) == -leap_correction(earlier, later),
            span_nanos(later, earlier) == (earlier.secs - later.secs + leap_correction(later, earlier))
                * 1000000000 + earlier.nanos - later.nanos,
            span_nanos(earlier, later) == (later.secs - earlier.secs + leap_correction(earlier, later))
                * 1000000000 + later.nanos - earlier.nanos,
    ;
}

/// A length of time: whole seconds (rounded down) and the nanoseconds past
/// them, below one second.
#[derive(Clone, Copy, Debug, PartialEq, Eq, Structural)]
pub struct TimeSpan {
    pub secs: i64,
    pub nanos: u32,
}

/// The second of its day that `secs` (seconds since the epoch) falls in.
fn day_second(secs: i64) -> (res: i64)
    ensures
        res == (secs as int) % 86400,
{
    if secs >= 0 {
        secs % 86400
    } else {
        let m: i128 = (0 - (secs as i128)) % 86400;
        let r: i128 = if m == 0 { 0 } else { 86400 - m };
        assert(r == (secs as int) % 86400) by (nonlinear_arith)
            requires
                secs < 0,
                m == (-secs) % 86400,
                r == (if m == 0 { 0 } else { 86400 - m }),
        ;
        r as i64
    }
}

/// The time from `earlier` to `later` (negative where `later` comes first),
/// as chrono's subtraction of the two points in time gives it, leap seconds
/// included; `None` where its whole seconds leave the range of `i64`.
pub fn time_between(earlier: Timestamp, later: Timestamp) -> (res: Option<TimeSpan>)
    ensures
        match res {
            Some(d) => d.nanos < 1000000000 && d.secs * 1000000000 + d.nanos == span_nanos(earlier, later),
            None => !(i64::MIN <= span_nanos(earlier, later) / 1000000000 <= i64::MAX),
        },
{
    let se = day_second(earlier.secs);
    let sl = day_second(later.secs);
    let c: i128 = if sl > se && earlier.nanos >= 1000000000 {
        1
    } else if sl < se && later.nanos >= 1000000000 {
        -1
    } else {
        0
    };
    assert(c == leap_correction(earlier, later));
    let ds: i128 = later.secs as i128 - earlier.secs as i128 + c;
    let dn: i128 = later.nanos as i128 - earlier.nanos as i128;
    let q: i128 = if dn >= 0 { dn / 1000000000 } else { 0 - ((0 - dn + 999999999) / 1000000000) };
    let r: i128 = dn - q * 1000000000;
    assert(0 <= r < 1000000000);
    let secs: i128 = ds + q;
    assert(secs * 1000000000 + r == span_nanos(earlier, later));
    assert(span_nanos(earlier, later) / 1000000000 == secs);
    if secs < -9223372036854775808 || secs > 9223372036854775807 {
        return None;
    }
    Some(TimeSpan { secs: secs as i64, nanos: r as u32 })
}

/// What `DateTime::parse_from_str(text, format)` followed by a conversion to
/// UTC gives, as a `Timestamp`; `None` where chrono reports a parse error.
pub uninterp spec fn chrono_parse_from_str(text: Seq<char>, format: Seq<char>) -> Option<Timestamp>;

/// What `text.parse::<DateTime<Utc>>()` gives, as a `Timestamp`; `None` where
/// chrono reports a parse error.
pub uninterp spec fn chrono_parse_utc(text: Seq<char>) -> Option<Timestamp>;

/// Calls `chrono::DateTime::parse_from_str(text, format)`, converts the result
/// to UTC and reads its seconds and nanoseconds. The contract only names the
/// result: it is the same for the same `text` and `format`.
#[verifier::external_body]
pub(crate) fn parse_datetime_with_format(text: &str, format: &str) -> (res: Option<Timestamp>)
    ensures
        res == chrono_parse_from_str(text@, format@),
{
    match DateTime::parse_from_str(text, format) {
        Ok(dt) => {
            let utc = dt.with_timezone(&Utc);
            Some(Timestamp { secs: utc.timestamp(), nanos: utc.timestamp_subsec_nanos() })
        },
        Err(_) => None,
    }
}

/// Calls `str::parse::<chrono::DateTime<Utc>>` (a relaxed RFC 3339 reader) and
/// reads the seconds and nanoseconds of the result. The contract only names the
/// result: it is the same for the same `text`.
#[verifier::external_body]
pub(crate) fn parse_utc_datetime(text: &str) -> (res: Option<Timestamp>)
    ensures
        res == chrono_parse_utc(text@),
{
    match text.parse::<DateTime<Utc>>() {
        Ok(dt) => Some(Timestamp { secs: dt.timestamp(), nanos: dt.timestamp_subsec_nanos() }),
        Err(_) => None,
    }
}

} // verus!
