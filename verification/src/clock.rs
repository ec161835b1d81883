//! Points in time and spans between them.

use vstd::prelude::*;
use chrono::TimeZone;
use crate::number::digit_char;

verus! {

/// A point in time, in UTC: whole seconds since the Unix epoch, and the
/// nanoseconds past that second.
#[derive(Debug, Clone, Copy, PartialEq, Eq, Structural)]
pub struct Timestamp {
    pub secs: i64,
    pub nanos: u32,
}

/// The first second that the calendar covers.
pub const MIN_SECS: i64 = -8_334_601_228_800;

/// The last second that the calendar covers.
pub const MAX_SECS: i64 = 8_210_266_876_799;

impl Timestamp {
    /// A point that the calendar covers.
    pub open spec fn valid(self) -> bool {
        MIN_SECS <= self.secs <= MAX_SECS && self.nanos < 1_000_000_000
    }

    /// Nanoseconds since the Unix epoch.
    pub open spec fn total(self) -> int {
        self.secs * 1_000_000_000 + self.nanos
    }

    /// Whole milliseconds since the Unix epoch, rounded down.
    pub open spec fn whole_millis(self) -> int {
        self.secs * 1000 + self.nanos / 1_000_000
    }

    /// The current time.
    pub fn now() -> (res: Self)
        ensures
            res.valid(),
    {
        utc_now()
    }

    /// The point that lies `millis` milliseconds after the Unix epoch, where the
    /// calendar covers it.
    pub fn of_millis(millis: i64) -> (res: Option<Self>)
        ensures
            match res {
                Some(t) => t.valid() && t.secs == millis as int / 1000 && t.nanos == (millis as int
                    % 1000) * 1_000_000,
                None => !(MIN_SECS <= millis as int / 1000 <= MAX_SECS),
            },
    {
        from_millis(millis)
    }

    /// The time of day in UTC, hours and minutes, such as `09:05`.
    pub fn clock(&self) -> (res: String)
        requires
            self.valid(),
        ensures
            res@ == clock_of(*self),
    {
        clock_text(self)
    }

    /// Month, day and time of day in UTC.
    pub fn day(&self) -> (res: String)
        requires
            self.valid(),
        ensures
            res@ == day_stamp(*self),
    {
        day_text(self)
    }

    /// Date and time in the notation of RFC 3339.
    pub fn rfc3339(&self) -> (res: String)
        requires
            self.valid(),
        ensures
            res@ == rfc3339_stamp(self.secs, self.nanos),
    {
        rfc3339_text(self)
    }

    /// Nanoseconds from `earlier` to `self`.
    pub fn since(&self, earlier: &Timestamp) -> (res: i128)
        ensures
            res == self.total() - earlier.total(),
    {
        (self.secs as i128 * 1_000_000_000 + self.nanos as i128) - (earlier.secs as i128
            * 1_000_000_000 + earlier.nanos as i128)
    }

    /// Whole milliseconds since the Unix epoch, rounded down.
    pub fn millis(&self) -> (res: i64)
        requires
            self.valid(),
        ensures
            res == self.whole_millis(),
    {
        self.secs * 1000 + (self.nanos / 1_000_000) as i64
    }
}

/// A count of nanoseconds in units of `unit`, rounded toward zero.
pub open spec fn truncated(nanos: int, unit: int) -> int {
    if nanos < 0 {
        -((-nanos) / unit)
    } else {
        nanos / unit
    }
}

/// The whole seconds of a span, rounded toward zero.
pub fn span_seconds(nanos: i128) -> (res: i128)
    requires
        nanos > i128::MIN,
    ensures
        res == truncated(nanos as int, 1_000_000_000),
{
    if nanos < 0 {
        -((-nanos) / 1_000_000_000)
    } else {
        nanos / 1_000_000_000
    }
}

/// The whole milliseconds of a span, rounded toward zero.
pub fn span_millis(nanos: i128) -> (res: i128)
    requires
        nanos > i128::MIN,
    ensures
        res == truncated(nanos as int, 1_000_000),
{
    if nanos < 0 {
        -((-nanos) / 1_000_000)
    } else {
        nanos / 1_000_000
    }
}

/// The current time.
///
/// Stands for `chrono::Utc::now`. Nothing is claimed of the reading but that
/// the calendar covers it.
#[verifier::external_body]
fn utc_now() -> (res: Timestamp)
    ensures
        res.valid(),
{
    let now = chrono::Utc::now();
    Timestamp { secs: now.timestamp(), nanos: now.timestamp_subsec_nanos() }
}

/// The point that lies `millis` milliseconds after the Unix epoch.
///
/// Stands for `chrono::TimeZone::timestamp_millis_opt` on UTC: there is such a
/// point exactly where the calendar covers its second, and it is that second
/// with the remaining milliseconds as nanoseconds.
#[verifier::external_body]
fn from_millis(millis: i64) -> (res: Option<Timestamp>)
    ensures
        match res {
            Some(t) => MIN_SECS <= millis as int / 1000 <= MAX_SECS && t.secs == millis as int
                / 1000 && t.nanos == (millis as int % 1000) * 1_000_000,
            None => !(MIN_SECS <= millis as int / 1000 <= MAX_SECS),
        },
{
    let point = chrono::Utc.timestamp_millis_opt(millis).single()?;
    Some(Timestamp { secs: point.timestamp(), nanos: point.timestamp_subsec_nanos() })
}

/// Two digits for a number below one hundred.
pub open spec fn two_digits(n: int) -> Seq<char> {
    seq![digit_char(n / 10), digit_char(n % 10)]
}

/// The time of day in UTC, hours and minutes.
pub open spec fn clock_of(t: Timestamp) -> Seq<char> {
    let second_of_day = t.secs as int % 86_400;
    two_digits(second_of_day / 3600) + seq![':'] + two_digits(second_of_day / 60 % 60)
}

/// The time of day in UTC, hours and minutes, such as `09:05`.
///
/// Stands for `chrono::DateTime::format` with the pattern `%H:%M`.
#[verifier::external_body]
fn clock_text(t: &Timestamp) -> (res: String)
    requires
        t.valid(),
    ensures
        res@ == clock_of(*t),
{
    chrono::DateTime::from_timestamp(t.secs, t.nanos).unwrap_or_default().format("%H:%M").to_string()
}

/// The month and the day of the month, in the Gregorian calendar, of the day
/// `day` after that of the Unix epoch. The years are counted from March on, so
/// that a leap day is the last of its year; 400 of them have 146097 days.
pub open spec fn month_and_day(day: int) -> (int, int) {
    let day_of_era = (day + 719_468) % 146_097;
    let year_of_era = (day_of_era - day_of_era / 1460 + day_of_era / 36_524 - day_of_era / 146_096)
        / 365;
    let day_of_year = day_of_era - (365 * year_of_era + year_of_era / 4 - year_of_era / 100);
    let month = (5 * day_of_year + 2) / 153;
    (
        if month < 10 {
            month + 3
        } else {
            month - 9
        },
        day_of_year - (153 * month + 2) / 5 + 1,
    )
}

/// Month, day and time of day in UTC.
pub open spec fn day_stamp(t: Timestamp) -> Seq<char> {
    let (month, day) = month_and_day(t.secs as int / 86_400);
    two_digits(month) + seq!['-'] + two_digits(day) + seq![' '] + clock_of(t) + seq![':']
        + two_digits(t.secs as int % 60)
}

/// Month, day and time of day in UTC, such as `02-29 09:05:07`.
///
/// Stands for `chrono::DateTime::format` with the pattern `%m-%d %H:%M:%S`.
#[verifier::external_body]
fn day_text(t: &Timestamp) -> (res: String)
    requires
        t.valid(),
    ensures
        res@ == day_stamp(*t),
{
    chrono::DateTime::from_timestamp(t.secs, t.nanos).unwrap_or_default().format(
        "%m-%d %H:%M:%S",
    ).to_string()
}

/// What `chrono` writes for a point in time in the notation of RFC 3339.
pub uninterp spec fn rfc3339_stamp(secs: i64, nanos: u32) -> Seq<char>;

/// Date and time in the notation of RFC 3339.
///
/// Stands for `chrono::DateTime::to_rfc3339`; the text is named, not described.
#[verifier::external_body]
fn rfc3339_text(t: &Timestamp) -> (res: String)
    requires
        t.valid(),
    ensures
        res@ == rfc3339_stamp(t.secs, t.nanos),
{
    chrono::DateTime::from_timestamp(t.secs, t.nanos).unwrap_or_default().to_rfc3339()
}

/// A point rebuilt from its whole milliseconds is that point with the finer
/// part of its second dropped.
pub proof fn law_millis_round_trip(t: Timestamp, r: Timestamp)
    requires
        t.valid(),
        r.secs == t.whole_millis() / 1000,
        r.nanos == (t.whole_millis() % 1000) * 1_000_000,
    ensures
        MIN_SECS <= t.whole_millis() / 1000 <= MAX_SECS,
        r.secs == t.secs,
        r.nanos <= t.nanos < r.nanos + 1_000_000,
        r.whole_millis() == t.whole_millis(),
{
}

/// The time of day counts seconds since midnight: hours and minutes are what is
/// written, with two digits each, the same on every day.
pub proof fn law_time_of_day(t: Timestamp, day: int, hour: int, minute: int, second: int)
    requires
        t.secs == day * 86_400 + hour * 3600 + minute * 60 + second,
        0 <= hour < 24,
        0 <= minute < 60,
        0 <= second < 60,
    ensures
        clock_of(t).len() == 5,
        clock_of(t)[0] as int == '0' as int + hour / 10,
        clock_of(t)[1] as int == '0' as int + hour % 10,
        clock_of(t)[2] == ':',
        clock_of(t)[3] as int == '0' as int + minute / 10,
        clock_of(t)[4] as int == '0' as int + minute % 10,
{
    assert(t.secs as int % 86_400 == hour * 3600 + minute * 60 + second) by {
        assert((day * 86_400 + (hour * 3600 + minute * 60 + second)) % 86_400 == hour * 3600 + minute
            * 60 + second) by (nonlinear_arith)
            requires
                0 <= hour * 3600 + minute * 60 + second < 86_400,
        ;
    }
    let s = hour * 3600 + minute * 60 + second;
    assert(s / 3600 == hour && s / 60 % 60 == minute);
}

/// A span in whole units is rounded toward zero.
pub proof fn law_spans_are_rounded(nanos: int, unit: int)
    requires
        unit == 1_000_000_000 || unit == 1_000_000,
    ensures
        nanos >= 0 ==> truncated(nanos, unit) >= 0 && truncated(nanos, unit) * unit <= nanos < (
        truncated(nanos, unit) + 1) * unit,
        nanos < 0 ==> truncated(nanos, unit) == -truncated(-nanos, unit),
{
}

/// The total of a point counts its nanoseconds since the Unix epoch, and its whole
/// milliseconds are that total rounded down.
pub proof fn law_points_are_counted(t: Timestamp)
    requires
        t.nanos < 1_000_000_000,
    ensures
        t.total() == t.secs * 1_000_000_000 + t.nanos,
        t.whole_millis() * 1_000_000 <= t.total() < (t.whole_millis() + 1) * 1_000_000,
{
}

} // verus!
