//! Wall-clock time in the machine's local time zone, through `chrono`.
//!
//! A local date-time is held as a [`Moment`]: its instant (whole seconds and
//! nanoseconds since the Unix epoch), the offset from UTC in force at it, and
//! its RFC 3339 text. Only chrono makes moments; the calendar arithmetic the
//! schedule rules need (local day, time of day, weekday) is done here on
//! those plain values.

use chrono::{DateTime, Local, NaiveDateTime, NaiveTime, TimeZone, Timelike};
use vstd::prelude::*;

verus! {

/// The instant that `chrono::DateTime::parse_from_rfc3339` reads from the
/// text, as `(timestamp, timestamp_subsec_nanos)`; `None` when it does not
/// parse.
pub uninterp spec fn rfc3339_instant(s: Seq<char>) -> Option<(i64, u32)>;

/// The wall-clock reading that `chrono::NaiveDateTime::parse_from_str`
/// reads from the text in the format, as seconds and nanoseconds counted
/// from 1970-01-01 00:00 on the same clock; `None` when it does not parse.
pub uninterp spec fn naive_datetime_reading(s: Seq<char>, fmt: Seq<char>) -> Option<(i64, u32)>;

/// The time of day that `chrono::NaiveTime::parse_from_str` reads from the
/// text in the format, as seconds from midnight and nanoseconds; `None` when
/// it does not parse.
pub uninterp spec fn naive_time_reading(s: Seq<char>, fmt: Seq<char>) -> Option<(u32, u32)>;

/// `DateTime::to_rfc3339` of the instant `(secs, nanos)` shown at the UTC
/// offset `offset` (in seconds).
pub uninterp spec fn rfc3339_stamp(secs: i64, nanos: u32, offset: i32) -> Seq<char>;

/// Seconds in a day.
pub const DAY_SECS: i64 = 86400;

/// A bound on the seconds of any instant chrono represents (its dates run
/// from year -262144 to year 262143).
pub const SECS_BOUND: i64 = 10_000_000_000_000;

/// A local date-time. Only chrono makes one.
#[derive(Debug)]
pub struct Moment {
    secs: i64,
    nanos: u32,
    offset_secs: i32,
    stamp: String,
}

/// A local date-time as plain values.
pub struct MomentView {
    /// Whole seconds since the Unix epoch.
    pub secs: int,
    /// Nanoseconds past `secs` (at or above a billion during a leap second).
    pub nanos: int,
    /// Seconds to add to UTC to get the local clock.
    pub offset: int,
    /// RFC 3339 text of the date-time with its offset.
    pub stamp: Seq<char>,
}

impl View for Moment {
    type V = MomentView;

    closed spec fn view(&self) -> MomentView {
        MomentView {
            secs: self.secs as int,
            nanos: self.nanos as int,
            offset: self.offset_secs as int,
            stamp: self.stamp@,
        }
    }
}

/// What every moment chrono makes satisfies: its instant is in chrono's
/// range, its nanoseconds below two billion, its offset less than a day, and
/// its stamp the RFC 3339 text of the instant at the offset.
pub open spec fn valid(m: MomentView) -> bool {
    &&& -SECS_BOUND < m.secs < SECS_BOUND
    &&& 0 <= m.nanos < 2_000_000_000
    &&& -DAY_SECS < m.offset < DAY_SECS
    &&& m.stamp == rfc3339_stamp(m.secs as i64, m.nanos as u32, m.offset as i32)
}

/// The reading of the local clock at the moment, in seconds counted from
/// 1970-01-01 00:00 on that clock.
pub open spec fn reading(m: MomentView) -> int {
    m.secs + m.offset
}

/// The local calendar day of the moment, counted from 1970-01-01.
pub open spec fn local_day(m: MomentView) -> int {
    reading(m) / (DAY_SECS as int)
}

/// The local time of day of the moment, in seconds from midnight.
pub open spec fn day_secs(m: MomentView) -> int {
    reading(m) % (DAY_SECS as int)
}

/// The weekday of a day counted from 1970-01-01 (a Thursday): Monday is 0
/// and Sunday is 6.
pub open spec fn weekday_of_day(day: int) -> int {
    (day + 3) % 7
}

/// `a` is at or before `b`.
pub open spec fn not_after(a: Moment, b: Moment) -> bool {
    a@.secs < b@.secs || (a@.secs == b@.secs && a@.nanos <= b@.nanos)
}

/// `a` is strictly before `b`.
pub open spec fn before(a: Moment, b: Moment) -> bool {
    a@.secs < b@.secs || (a@.secs == b@.secs && a@.nanos < b@.nanos)
}

/// Whole seconds from `earlier` to `later`, rounded toward zero (as
/// `(later - earlier).num_seconds()`).
pub open spec fn secs_between(later: MomentView, earlier: MomentView) -> int {
    let d = (later.secs - earlier.secs) * 1_000_000_000 + later.nanos - earlier.nanos;
    if d >= 0 {
        d / 1_000_000_000
    } else {
        -((-d) / 1_000_000_000)
    }
}

impl Moment {
    #[verifier::type_invariant]
    closed spec fn is_valid(self) -> bool {
        valid(self@)
    }

    /// Whole seconds since the Unix epoch.
    pub fn secs(&self) -> (r: i64)
        ensures
            r == self@.secs,
    {
        self.secs
    }

    /// Nanoseconds past those seconds.
    pub fn nanos(&self) -> (r: u32)
        ensures
            r == self@.nanos,
    {
        self.nanos
    }

    /// Seconds to add to UTC to get the local clock.
    pub fn offset_secs(&self) -> (r: i32)
        ensures
            r == self@.offset,
    {
        self.offset_secs
    }

    /// RFC 3339 text of the date-time with its offset.
    pub fn stamp(&self) -> (r: &String)
        ensures
            r@ == self@.stamp,
    {
        &self.stamp
    }

    /// A copy of the stamp.
    pub fn stamp_text(&self) -> (r: String)
        ensures
            r@ == self@.stamp,
    {
        self.stamp.clone()
    }

    /// The current local moment.
    pub fn now() -> (m: Moment)
        ensures
            valid(m@),
    {
        local_now()
    }

    /// Whether this moment is at or before `other`.
    pub fn not_after(&self, other: &Moment) -> (b: bool)
        ensures
            b == not_after(*self, *other),
    {
        self.secs < other.secs || (self.secs == other.secs && self.nanos <= other.nanos)
    }

    /// Whether this moment is strictly before `other`.
    pub fn before(&self, other: &Moment) -> (b: bool)
        ensures
            b == before(*self, *other),
    {
        self.secs < other.secs || (self.secs == other.secs && self.nanos < other.nanos)
    }

    /// The local calendar day, counted from 1970-01-01.
    pub fn local_day(&self) -> (d: i64)
        ensures
            d == local_day(self@),
            -200_000_000 < d < 200_000_000,
    {
        proof {
            use_type_invariant(self);
        }
        let shift: i64 = 115_740_742 * DAY_SECS;
        let x: i64 = self.secs + self.offset_secs as i64;
        let u: i64 = x + shift;
        let d = u / DAY_SECS - 115_740_742;
        proof {
            lemma_shifted_division(x as int, 115_740_742);
        }
        d
    }

    /// The local time of day, in seconds from midnight.
    pub fn day_secs(&self) -> (s: u32)
        ensures
            s == day_secs(self@),
            s < 86400,
    {
        proof {
            use_type_invariant(self);
        }
        let shift: i64 = 115_740_742 * DAY_SECS;
        let x: i64 = self.secs + self.offset_secs as i64;
        let u: i64 = x + shift;
        proof {
            lemma_shifted_division(x as int, 115_740_742);
        }
        (u % DAY_SECS) as u32
    }
}

/// Shifting by whole days does not change the time of day, and moves the day
/// by as many days.
proof fn lemma_shifted_division(x: int, k: int)
    requires
        x + k * 86400 >= 0,
    ensures
        (x + k * 86400) / 86400 - k == x / 86400,
        (x + k * 86400) % 86400 == x % 86400,
{
    assert((x + k * 86400) / 86400 - k == x / 86400 && (x + k * 86400) % 86400 == x % 86400)
        by (nonlinear_arith)
        requires
            x + k * 86400 >= 0,
    ;
}

/// The weekday of a day counted from 1970-01-01: Monday is 0.
pub fn weekday_of(day: i64) -> (w: u8)
    requires
        -300_000_000 < day < 300_000_000,
    ensures
        w == weekday_of_day(day as int),
        w < 7,
{
    let u: i64 = day + 3 + 700_000_000;
    proof {
        assert((day + 3 + 700_000_000) % 7 == (day + 3) % 7) by (nonlinear_arith)
            requires
                day + 3 + 700_000_000 >= 0,
        ;
    }
    (u % 7) as u8
}

/// Whole seconds from `earlier` to `later`, rounded toward zero.
pub fn whole_secs_between(later: &Moment, earlier: &Moment) -> (r: i64)
    ensures
        r == secs_between(later@, earlier@),
{
    proof {
        use_type_invariant(later);
        use_type_invariant(earlier);
    }
    let d: i128 = (later.secs as i128 - earlier.secs as i128) * 1_000_000_000 + later.nanos as i128
        - earlier.nanos as i128;
    if d >= 0 {
        (d / 1_000_000_000) as i64
    } else {
        let q: i128 = (-d) / 1_000_000_000;
        (-q) as i64
    }
}

/// `chrono::Local::now`: the current local date-time, as chrono makes it
/// (its instant, its offset, and `to_rfc3339`). Which moment comes back
/// depends on the clock, so only what holds of every chrono date-time is
/// promised.
#[verifier::external_body]
pub(crate) fn local_now() -> (m: Moment)
    ensures
        valid(m@),
        m@.stamp == rfc3339_stamp(m@.secs as i64, m@.nanos as u32, m@.offset as i32),
{
    let dt = Local::now();
    Moment {
        secs: dt.timestamp(),
        nanos: dt.timestamp_subsec_nanos(),
        offset_secs: dt.offset().local_minus_utc(),
        stamp: dt.to_rfc3339(),
    }
}

/// `TimeZone::from_local_datetime` on `Local`, with the earlier of two
/// results (`earliest`), for the wall-clock reading `(reading, nanos)`
/// (made a `NaiveDateTime` by `DateTime::from_timestamp`). `None` for a
/// reading the local clock skips or chrono cannot represent; a moment that
/// comes back shows that reading on the local clock. Which readings the
/// clock skips depends on the machine's time zone and is not promised.
#[verifier::external_body]
pub(crate) fn local_from_naive(reading: i64, nanos: u32) -> (r: Option<Moment>)
    ensures
        r matches Some(m) ==> valid(m@) && m@.secs + m@.offset == reading && m@.nanos == nanos,
        r matches Some(m) ==> m@.stamp == rfc3339_stamp(m@.secs as i64, m@.nanos as u32, m@.offset as i32),
{
    match DateTime::from_timestamp(reading, nanos) {
        Some(u) => match Local.from_local_datetime(&u.naive_utc()).earliest() {
            Some(dt) => Some(
                Moment {
                    secs: dt.timestamp(),
                    nanos: dt.timestamp_subsec_nanos(),
                    offset_secs: dt.offset().local_minus_utc(),
                    stamp: dt.to_rfc3339(),
                },
            ),
            None => None,
        },
        None => None,
    }
}

/// `DateTime::parse_from_rfc3339`, then the same instant in the local time
/// zone (`with_timezone(&Local)`): `Some` exactly when the text parses, with
/// the instant the text names.
#[verifier::external_body]
pub(crate) fn parse_rfc3339_local(s: &str) -> (r: Option<Moment>)
    ensures
        r is Some == rfc3339_instant(s@) is Some,
        r matches Some(m) ==> valid(m@) && rfc3339_instant(s@) == Some((m@.secs as i64, m@.nanos as u32)),
        r matches Some(m) ==> m@.stamp == rfc3339_stamp(m@.secs as i64, m@.nanos as u32, m@.offset as i32),
{
    match DateTime::parse_from_rfc3339(s) {
        Ok(p) => {
            let dt = p.with_timezone(&Local);
            Some(
                Moment {
                    secs: dt.timestamp(),
                    nanos: dt.timestamp_subsec_nanos(),
                    offset_secs: dt.offset().local_minus_utc(),
                    stamp: dt.to_rfc3339(),
                },
            )
        },
        Err(_) => None,
    }
}

/// `NaiveDateTime::parse_from_str`: the wall-clock reading of the text in
/// the format (as `and_utc().timestamp()` and its nanoseconds).
#[verifier::external_body]
pub(crate) fn parse_naive_datetime(s: &str, fmt: &str) -> (r: Option<(i64, u32)>)
    ensures
        r == naive_datetime_reading(s@, fmt@),
{
    match NaiveDateTime::parse_from_str(s, fmt) {
        Ok(n) => Some((n.and_utc().timestamp(), n.and_utc().timestamp_subsec_nanos())),
        Err(_) => None,
    }
}

/// `NaiveTime::parse_from_str`: the time of day of the text in the format
/// (as `num_seconds_from_midnight` and `nanosecond`), below a day.
#[verifier::external_body]
pub(crate) fn parse_naive_time(s: &str, fmt: &str) -> (r: Option<(u32, u32)>)
    ensures
        r == naive_time_reading(s@, fmt@),
        r matches Some((a, b)) ==> a < 86400 && b < 2_000_000_000,
{
    match NaiveTime::parse_from_str(s, fmt) {
        Ok(t) => Some((t.num_seconds_from_midnight(), t.nanosecond())),
        Err(_) => None,
    }
}

} // verus!
