//! RFC 3339 timestamps, read and written by the `time` crate.
use vstd::prelude::*;
use time::{OffsetDateTime, UtcOffset};
use time::format_description::well_known::Rfc3339;

verus! {

/// A point in time together with the UTC offset it was written in.
#[derive(Debug, Clone, Copy, PartialEq, Eq, Structural)]
pub struct OffsetInstant {
    /// Nanoseconds since 1970-01-01T00:00:00Z.
    pub unix_nanos: i128,
    /// The offset from UTC, in seconds.
    pub offset_seconds: i32,
}

/// What `OffsetDateTime::parse(text, &Rfc3339)` reads from a text, if it
/// accepts it: the instant in nanoseconds since the epoch and the offset in
/// seconds.
pub uninterp spec fn rfc3339_parse(text: Seq<char>) -> Option<(i128, i32)>;

/// Seconds in a day.
pub const SECONDS_PER_DAY: i128 = 86400;

/// Nanoseconds in a second.
pub const NANOS_PER_SECOND: i128 = 1_000_000_000;

/// The Julian day number of 1970-01-01.
pub const UNIX_EPOCH_JULIAN_DAY: i128 = 2440588;

/// The calendar day (as a Julian day number) on which `t` falls in its own offset.
pub open spec fn local_julian_day(t: OffsetInstant) -> int {
    let seconds = t.unix_nanos as int / NANOS_PER_SECOND as int + t.offset_seconds as int;
    seconds / SECONDS_PER_DAY as int + UNIX_EPOCH_JULIAN_DAY as int
}

/// The ranges the `time` crate keeps: offsets within ±25:59:59 and dates within
/// years ±999,999, so well inside ±10^27 nanoseconds of the epoch.
pub open spec fn well_ranged(t: OffsetInstant) -> bool {
    &&& -93599 <= t.offset_seconds <= 93599
    &&& -1_000_000_000_000_000_000_000_000_000 < t.unix_nanos < 1_000_000_000_000_000_000_000_000_000
}

/// `time::OffsetDateTime::parse` with the `Rfc3339` format.
///
/// Trusted: the result is the crate's parse of exactly this text, within the
/// ranges the crate's types keep; which texts it accepts is not restated here.
#[verifier::external_body]
pub fn parse_rfc3339(text: &str) -> (r: Option<OffsetInstant>)
    ensures
        match r {
            Some(t) => rfc3339_parse(text@) == Some((t.unix_nanos, t.offset_seconds))
                && well_ranged(t),
            None => rfc3339_parse(text@) is None,
        },
{
    match OffsetDateTime::parse(text, &Rfc3339) {
        Ok(t) => Some(OffsetInstant {
            unix_nanos: t.unix_timestamp_nanos(),
            offset_seconds: t.offset().whole_seconds(),
        }),
        Err(_) => None,
    }
}

/// Floor division of `a` by a positive `b`.
pub fn floor_div(a: i128, b: i128) -> (q: i128)
    requires
        b > 0,
        a > i128::MIN,
    ensures
        q == a as int / b as int,
{
    if a >= 0 {
        a / b
    } else {
        let m: i128 = -a;
        let q: i128 = m / b;
        proof {
            lemma_floor_div_negative(m as int, b as int);
        }
        if q * b == m {
            -q
        } else {
            -q - 1
        }
    }
}

proof fn lemma_floor_div_negative(m: int, b: int)
    requires
        m > 0,
        b > 0,
    ensures
        0 <= (m / b) * b <= m,
        (m / b) * b == m ==> (-m) / b == -(m / b),
        (m / b) * b != m ==> (-m) / b == -(m / b) - 1,
{
    let q = m / b;
    let r = m % b;
    assert(m == q * b + r && 0 <= r < b && q >= 0) by (nonlinear_arith)
        requires
            m > 0,
            b > 0,
            q == m / b,
            r == m % b,
    ;
    assert(0 <= q * b) by (nonlinear_arith)
        requires
            q >= 0,
            b > 0,
    ;
    if r == 0 {
        assert(-m == (-q) * b) by (nonlinear_arith)
            requires
                m == q * b + r,
                r == 0,
        ;
        assert((-m) / b == -q) by (nonlinear_arith)
            requires
                -m == (-q) * b,
                b > 0,
        ;
    } else {
        assert(-m == (-q - 1) * b + (b - r)) by (nonlinear_arith)
            requires
                m == q * b + r,
        ;
        assert((-m) / b == -q - 1) by (nonlinear_arith)
            requires
                -m == (-q - 1) * b + (b - r),
                0 < b - r < b,
                b > 0,
        ;
    }
}

/// The local calendar day of an instant, as a Julian day number.
pub fn julian_day(t: OffsetInstant) -> (d: i128)
    requires
        well_ranged(t),
    ensures
        d == local_julian_day(t),
{
    let seconds: i128 = floor_div(t.unix_nanos, NANOS_PER_SECOND) + t.offset_seconds as i128;
    floor_div(seconds, SECONDS_PER_DAY) + UNIX_EPOCH_JULIAN_DAY
}

/// What `OffsetDateTime::format(&Rfc3339)` writes for an instant in a given
/// offset, or `None` where the crate refuses (an instant or an offset out of
/// its range, a local date-time in that offset out of its range, a year
/// outside 0..=9999, or an offset with seconds).
pub uninterp spec fn rfc3339_format(unix_nanos: i128, offset_seconds: i32) -> Option<Seq<char>>;

/// The RFC 3339 text of an instant, empty where it cannot be written that way.
pub open spec fn rfc3339_text(t: OffsetInstant) -> Seq<char> {
    match rfc3339_format(t.unix_nanos, t.offset_seconds) {
        Some(text) => text,
        None => Seq::empty(),
    }
}

/// `time::OffsetDateTime::format` with the `Rfc3339` format, after
/// `from_unix_timestamp_nanos`, `UtcOffset::from_whole_seconds` and
/// `checked_to_offset`, none of which panics.
///
/// Trusted: the result is the crate's rendering of exactly this instant and
/// offset, or `None` where the crate refuses; the RFC 3339 grammar is not
/// restated here.
#[verifier::external_body]
pub fn try_format_rfc3339(t: OffsetInstant) -> (r: Option<String>)
    ensures
        match rfc3339_format(t.unix_nanos, t.offset_seconds) {
            Some(text) => r matches Some(s) && s@ == text,
            None => r is None,
        },
{
    OffsetDateTime::from_unix_timestamp_nanos(t.unix_nanos)
        .ok()
        .and_then(|utc| UtcOffset::from_whole_seconds(t.offset_seconds).ok().and_then(|o| utc.checked_to_offset(o)))
        .and_then(|local| local.format(&Rfc3339).ok())
}

/// The RFC 3339 text of an instant, empty where it cannot be written so.
pub fn format_rfc3339(t: OffsetInstant) -> (s: String)
    ensures
        s@ == rfc3339_text(t),
{
    match try_format_rfc3339(t) {
        Some(text) => text,
        None => String::new(),
    }
}

/// The RFC 3339 text of an optional instant.
pub fn format_time(t: Option<OffsetInstant>) -> (r: Option<String>)
    ensures
        match t {
            Some(v) => match rfc3339_format(v.unix_nanos, v.offset_seconds) {
                Some(text) => r matches Some(s) && s@ == text,
                None => r is None,
            },
            None => r is None,
        },
{
    match t {
        Some(v) => try_format_rfc3339(v),
        None => None,
    }
}

/// `time::OffsetDateTime::now_utc`: the current instant, in UTC.
///
/// Trusted: only that the result is in UTC and within the crate's ranges;
/// the value depends on the clock.
#[verifier::external_body]
pub fn now_utc() -> (t: OffsetInstant)
    ensures
        t.offset_seconds == 0,
        well_ranged(t),
{
    OffsetInstant { unix_nanos: OffsetDateTime::now_utc().unix_timestamp_nanos(), offset_seconds: 0 }
}

} // verus!
