//! Points in time, and the timestamps they are written as.

use vstd::prelude::*;

verus! {

/// A point in time: whole seconds since 1970-01-01T00:00:00Z and the
/// nanoseconds past them.
#[derive(Debug, Clone, Copy, PartialEq, Eq)]
pub struct Moment {
    pub secs: i64,
    pub nanos: u32,
}

impl Moment {
    /// Whether this moment is later than `other`.
    pub open spec fn later_than(self, other: Moment) -> bool {
        self.secs > other.secs || (self.secs == other.secs && self.nanos > other.nanos)
    }

    pub fn is_after(&self, other: &Moment) -> (r: bool)
        ensures
            r == self.later_than(*other),
    {
        self.secs > other.secs || (self.secs == other.secs && self.nanos > other.nanos)
    }
}

/// The moment that an RFC 3339 timestamp names, as
/// `chrono::DateTime::parse_from_rfc3339` reads it: `timestamp` and
/// `timestamp_subsec_nanos`, or `None` where it refuses the text.
pub uninterp spec fn rfc3339_moment(text: Seq<char>) -> Option<Moment>;

/// The whole milliseconds from one RFC 3339 timestamp to another, negative
/// where the second is the earlier; `None` where either cannot be read.
pub uninterp spec fn rfc3339_gap_millis(first: Seq<char>, last: Seq<char>) -> Option<i64>;

/// `chrono::Utc::now`: the wall clock. Nothing is promised of it.
#[verifier::external_body]
fn read_clock() -> (r: Moment) {
    let now = chrono::Utc::now();
    Moment { secs: now.timestamp(), nanos: now.timestamp_subsec_nanos() }
}

/// The current time.
pub fn now() -> Moment {
    read_clock()
}

/// `chrono::DateTime::parse_from_rfc3339`: the result depends on the text
/// alone.
#[verifier::external_body]
fn read_rfc3339(text: &str) -> (r: Option<Moment>)
    ensures
        r == rfc3339_moment(text@),
{
    let t = chrono::DateTime::parse_from_rfc3339(text).ok()?;
    Some(Moment { secs: t.timestamp(), nanos: t.timestamp_subsec_nanos() })
}

/// Reads an RFC 3339 timestamp.
pub fn parse_rfc3339(text: &str) -> (r: Option<Moment>)
    ensures
        r == rfc3339_moment(text@),
{
    read_rfc3339(text)
}

/// The difference of two timestamps that `chrono` reads, in whole milliseconds
/// (`TimeDelta::num_milliseconds`): it depends on the two texts alone, and on
/// nothing where one of them cannot be read.
#[verifier::external_body]
fn read_gap_millis(first: &str, last: &str) -> (r: Option<i64>)
    ensures
        r == rfc3339_gap_millis(first@, last@),
        r is None <==> rfc3339_moment(first@) is None || rfc3339_moment(last@) is None,
{
    let a = chrono::DateTime::parse_from_rfc3339(first).ok()?;
    let b = chrono::DateTime::parse_from_rfc3339(last).ok()?;
    Some((b - a).num_milliseconds())
}

/// How long something took that began and ended at the given timestamps, in
/// milliseconds: none where it ended before it began, or where a timestamp
/// cannot be read.
pub open spec fn span_millis_of(first: Seq<char>, last: Seq<char>) -> i64 {
    match rfc3339_gap_millis(first, last) {
        Some(gap) => if gap > 0 {
            gap
        } else {
            0
        },
        None => 0,
    }
}

pub fn span_millis(first_at: &str, last_at: &str) -> (r: i64)
    ensures
        r == span_millis_of(first_at@, last_at@),
        r >= 0,
{
    match read_gap_millis(first_at, last_at) {
        Some(gap) => if gap > 0 {
            gap
        } else {
            0
        },
        None => 0,
    }
}

/// `chrono::Utc::now`, written as date, hour and minute. Nothing is promised of
/// it.
#[verifier::external_body]
fn read_minute() -> (r: String) {
    chrono::Utc::now().format("%Y-%m-%dT%H:%M").to_string()
}

/// The current minute.
pub fn minute_now() -> String {
    read_minute()
}

// ---------------------------------------------------------------------------
// The calendar
// ---------------------------------------------------------------------------

/// The seconds of a day.
pub const DAY: i64 = 86400;

/// A point in time written as `YYYY-MM-DDTHH:MM:SS` in UTC, where the calendar
/// reaches it.
pub uninterp spec fn seconds_text(secs: i64) -> Option<Seq<char>>;

/// A point in time written as `YYYY-MM-DD` in UTC, where the calendar reaches it.
pub uninterp spec fn date_text(secs: i64) -> Option<Seq<char>>;

/// The beginning of the month of a point in time, where the calendar reaches it.
pub uninterp spec fn month_start(secs: i64) -> Option<i64>;

/// `chrono::DateTime::from_timestamp`, then `format`: the text depends on the
/// seconds alone.
#[verifier::external_body]
fn write_seconds(secs: i64) -> (r: Option<String>)
    ensures
        match r {
            Some(t) => seconds_text(secs) == Some(t@),
            None => seconds_text(secs) is None,
        },
{
    let t = chrono::DateTime::from_timestamp(secs, 0)?;
    Some(t.format("%Y-%m-%dT%H:%M:%S").to_string())
}

/// `chrono::DateTime::from_timestamp`, then `format`: the text depends on the
/// seconds alone.
#[verifier::external_body]
fn write_date(secs: i64) -> (r: Option<String>)
    ensures
        match r {
            Some(t) => date_text(secs) == Some(t@),
            None => date_text(secs) is None,
        },
{
    let t = chrono::DateTime::from_timestamp(secs, 0)?;
    Some(t.format("%Y-%m-%d").to_string())
}

/// The first day of the month at midnight, by `chrono::Datelike::with_day`: a
/// whole number of days, at most 30 days and a part of one before.
#[verifier::external_body]
fn find_month_start(secs: i64) -> (r: Option<i64>)
    ensures
        r == month_start(secs),
        r matches Some(start) ==> start <= secs && secs - start < 31 * DAY && start % DAY == 0,
{
    let t = chrono::DateTime::from_timestamp(secs, 0)?;
    let first = chrono::Datelike::with_day(&t.date_naive(), 1)?;
    Some(first.and_hms_opt(0, 0, 0)?.and_utc().timestamp())
}

/// A point in time as `YYYY-MM-DDTHH:MM:SSZ`.
pub open spec fn zulu_text(secs: i64) -> Option<Seq<char>> {
    match seconds_text(secs) {
        Some(t) => Some(t + "Z"@),
        None => None,
    }
}

pub fn zulu(secs: i64) -> (r: Option<String>)
    ensures
        crate::text::opt_text(r) == zulu_text(secs),
{
    match write_seconds(secs) {
        Some(t) => Some(t.concat("Z")),
        None => None,
    }
}

/// A point in time as `YYYY-MM-DDTHH:MM:SS+00:00`.
pub open spec fn offset_text(secs: i64) -> Option<Seq<char>> {
    match seconds_text(secs) {
        Some(t) => Some(t + "+00:00"@),
        None => None,
    }
}

pub fn with_offset(secs: i64) -> (r: Option<String>)
    ensures
        crate::text::opt_text(r) == offset_text(secs),
{
    match write_seconds(secs) {
        Some(t) => Some(t.concat("+00:00")),
        None => None,
    }
}

/// The day of a point in time.
pub fn date(secs: i64) -> (r: Option<String>)
    ensures
        crate::text::opt_text(r) == date_text(secs),
{
    write_date(secs)
}

/// A number of days later, or earlier where it is negative.
pub open spec fn shifted(secs: i64, days: int) -> Option<i64> {
    let t = secs + DAY * days;
    if i64::MIN <= t <= i64::MAX {
        Some(t as i64)
    } else {
        None
    }
}

pub fn shift_days(secs: i64, days: i64) -> (r: Option<i64>)
    ensures
        r == shifted(secs, days as int),
{
    let t: i128 = secs as i128 + 86400i128 * days as i128;
    if t < -0x8000_0000_0000_0000i128 || t > 0x7fff_ffff_ffff_ffffi128 {
        None
    } else {
        Some(t as i64)
    }
}

/// The beginning of the day of a point in time.
pub open spec fn day_start(secs: i64) -> Option<i64> {
    let t = secs - secs as int % DAY as int;
    if t >= i64::MIN {
        Some(t as i64)
    } else {
        None
    }
}

pub fn start_of_day(secs: i64) -> (r: Option<i64>)
    ensures
        r == day_start(secs),
{
    let t: i128 = secs as i128 - floor_mod(secs);
    if t < -0x8000_0000_0000_0000i128 {
        None
    } else {
        Some(t as i64)
    }
}

fn floor_mod(secs: i64) -> (r: i128)
    ensures
        r == secs as int % DAY as int,
{
    if secs >= 0 {
        (secs % DAY) as i128
    } else {
        let m: i128 = -(secs as i128);
        let rest: i128 = m % 86400;
        if rest == 0 {
            assert(secs as int % 86400 == 0) by {
                vstd::arithmetic::div_mod::lemma_fundamental_div_mod(m as int, 86400);
                vstd::arithmetic::div_mod::lemma_fundamental_div_mod_converse(
                    secs as int,
                    86400,
                    -(m as int / 86400),
                    0,
                );
            }
            0
        } else {
            assert(secs as int % 86400 == 86400 - rest) by {
                vstd::arithmetic::div_mod::lemma_fundamental_div_mod(m as int, 86400);
                vstd::arithmetic::div_mod::lemma_fundamental_div_mod_converse(
                    secs as int,
                    86400,
                    -(m as int / 86400) - 1,
                    86400 - rest as int,
                );
            }
            86400 - rest
        }
    }
}

/// The beginning of the month of a point in time.
pub fn start_of_month(secs: i64) -> (r: Option<i64>)
    ensures
        r == month_start(secs),
        r matches Some(start) ==> start <= secs && secs - start < 31 * DAY,
{
    find_month_start(secs)
}

/// The Monday at midnight of the week of a point in time. The first of January
/// 1970 was a Thursday.
pub open spec fn week_start(secs: i64) -> Option<i64> {
    let day = secs as int / DAY as int;
    let t = DAY * (day - (day + 3) % 7);
    if t >= i64::MIN {
        Some(t as i64)
    } else {
        None
    }
}

pub fn start_of_week(secs: i64) -> (r: Option<i64>)
    ensures
        r == week_start(secs),
        r matches Some(start) ==> start <= secs && secs - start < 7 * DAY,
{
    let into: i128 = floor_mod(secs);
    let midnight: i128 = secs as i128 - into;
    let ghost day = secs as int / 86400;
    assert(midnight == 86400 * day) by {
        vstd::arithmetic::div_mod::lemma_fundamental_div_mod(secs as int, 86400);
    }
    // Counted from a Monday far enough back that no day is negative.
    let days: i128 = (midnight + 86400i128 * 0x1_0000_0000_0000 * 7) / 86400;
    assert(days == day + 0x7_0000_0000_0000) by {
        vstd::arithmetic::div_mod::lemma_div_multiples_vanish(day + 0x7_0000_0000_0000, 86400);
    }
    let past: i128 = (days + 3) % 7;
    assert(past == (day + 3) % 7) by {
        vstd::arithmetic::div_mod::lemma_mod_multiples_vanish(0x1_0000_0000_0000, day + 3, 7);
    }
    let t: i128 = midnight - 86400 * past;
    assert(t == 86400 * (day - (day + 3) % 7)) by (nonlinear_arith)
        requires
            midnight == 86400 * day,
            past == (day + 3) % 7,
            t == midnight - 86400 * past,
    ;
    assert(secs - t < 7 * 86400 && t <= secs) by {
        vstd::arithmetic::div_mod::lemma_fundamental_div_mod(secs as int, 86400);
    }
    if t < -0x8000_0000_0000_0000i128 {
        None
    } else {
        Some(t as i64)
    }
}

/// A number of minutes later.
pub open spec fn minutes_later(secs: i64, minutes: int) -> Option<i64> {
    let t = secs + 60 * minutes;
    if i64::MIN <= t <= i64::MAX {
        Some(t as i64)
    } else {
        None
    }
}

pub fn add_minutes(secs: i64, minutes: i64) -> (r: Option<i64>)
    ensures
        r == minutes_later(secs, minutes as int),
{
    let t: i128 = secs as i128 + 60i128 * minutes as i128;
    if t < -0x8000_0000_0000_0000i128 || t > 0x7fff_ffff_ffff_ffffi128 {
        None
    } else {
        Some(t as i64)
    }
}

/// A point in time as RFC 3339, with as many digits of its fraction as it needs.
pub uninterp spec fn rfc3339_text(secs: i64, nanos: u32) -> Option<Seq<char>>;

/// `chrono::DateTime::from_timestamp`, then `to_rfc3339`: the text depends on
/// the seconds and the nanoseconds alone.
#[verifier::external_body]
fn write_rfc3339(secs: i64, nanos: u32) -> (r: Option<String>)
    ensures
        match r {
            Some(t) => rfc3339_text(secs, nanos) == Some(t@),
            None => rfc3339_text(secs, nanos) is None,
        },
{
    Some(chrono::DateTime::from_timestamp(secs, nanos)?.to_rfc3339())
}

/// Writes a point in time as RFC 3339.
pub fn rfc3339(t: &Moment) -> (r: Option<String>)
    ensures
        crate::text::opt_text(r) == rfc3339_text(t.secs, t.nanos),
{
    write_rfc3339(t.secs, t.nanos)
}

/// Moving by days and by minutes moves by as many seconds, and back again; days and
/// weeks begin at or before the moment, a whole number of days apart, a week on a Monday.
pub proof fn time_is_counted_in_seconds(secs: i64, n: int, start: i64)
    ensures
        shifted(secs, n) == Some(start) ==> start - secs == 86400 * n && shifted(start, -n) == Some(
            secs,
        ),
        minutes_later(secs, n) == Some(start) ==> start - secs == 60 * n && minutes_later(start, -n)
            == Some(secs),
        day_start(secs) == Some(start) ==> start <= secs < start + 86400 && start as int % 86400 == 0,
        week_start(secs) == Some(start) ==> start <= secs < start + 7 * 86400 && start as int % 86400
            == 0 && (start as int / 86400) % 7 == 4,
        0 <= secs ==> day_start(secs) is Some,
        4 * 86400 <= secs ==> week_start(secs) is Some,
{
    let day = secs as int / 86400;
    assert(86400 * (day - (day + 3) % 7) / 86400 == day - (day + 3) % 7);
    assert((day - (day + 3) % 7) % 7 == 4);
}

/// One moment is later than another, or the other way round, unless they are the same.
pub proof fn moments_are_in_order(a: Moment, b: Moment, c: Moment)
    ensures
        !a.later_than(a),
        a == b || a.later_than(b) || b.later_than(a),
        a.later_than(b) && b.later_than(c) ==> a.later_than(c),
        a.secs > b.secs ==> a.later_than(b),
{
}

/// A span is the gap between its ends, and nothing where the end is not behind the start
/// or an end cannot be read.
pub proof fn spans_are_never_negative(first: Seq<char>, last: Seq<char>)
    ensures
        span_millis_of(first, last) >= 0,
        rfc3339_gap_millis(first, last) matches Some(gap) ==> (gap >= 0 ==> span_millis_of(first, last)
            == gap),
        rfc3339_gap_millis(first, last) matches Some(gap) ==> (gap < 0 ==> span_millis_of(first, last)
            == 0),
        rfc3339_gap_millis(first, last) is None ==> span_millis_of(first, last) == 0,
{
}

/// A moment of the world clock ends in its zone, written one way or the other.
pub proof fn moments_name_their_zone(secs: i64, t: Seq<char>)
    requires
        seconds_text(secs) == Some(t),
    ensures
        zulu_text(secs) == Some(t + "Z"@),
        offset_text(secs) == Some(t + "+00:00"@),
{
}

} // verus!
