//! Dates and the clock. The calendar and the current time come from
//! `chrono`; what is computed from them is verified here.

use crate::text::{byte_prefix, get_prefix, Text};
use chrono::Datelike;
use vstd::prelude::*;

verus! {

/// The last second, counted from the Unix epoch, that `chrono` has a date
/// for: 23:59:59 on the last day of the year 262142.
pub const LAST_SECOND: u64 = 8_210_266_876_799;

/// The number of 1 January 1970, where 1 January of the year 1 is day 1.
pub const EPOCH_DAY: i32 = 719_163;

/// A point in time: seconds since the Unix epoch, and nanoseconds.
#[derive(Clone, Copy, Debug, PartialEq, Eq, Structural)]
pub struct Moment {
    pub secs: u64,
    pub nanos: u32,
}

impl Moment {
    /// A point in time that `chrono` can express.
    pub open spec fn wf(self) -> bool {
        self.secs <= LAST_SECOND && self.nanos < 1_000_000_000
    }

    /// The number of the day, with 1 January of the year 1 as day 1.
    pub open spec fn day(self) -> int {
        EPOCH_DAY + self.secs as int / 86_400
    }

    /// The number of the day, with 1 January of the year 1 as day 1.
    pub fn today(self) -> (r: i32)
        requires
            self.wf(),
        ensures
            r == self.day(),
    {
        EPOCH_DAY + (self.secs / 86_400) as i32
    }
}

// ── Trusted: chrono ──────────────────────────────────────────────────

/// The number of the day that `chrono::NaiveDate::parse_from_str` reads in
/// the text `s` under the format `fmt`, with 1 January of the year 1 as day
/// 1, as `chrono::Datelike::num_days_from_ce` counts; none where it reads no
/// date.
pub uninterp spec fn calendar_day(s: Seq<char>, fmt: Seq<char>) -> Option<i32>;

/// The text that `chrono` writes for the given second since the Unix epoch,
/// in UTC, under the format `fmt`.
pub uninterp spec fn utc_text(secs: u64, fmt: Seq<char>) -> Seq<char>;

/// The text that `chrono::DateTime::to_rfc3339` writes for the given second
/// and nanosecond since the Unix epoch, in UTC.
pub uninterp spec fn rfc3339_text(secs: u64, nanos: u32) -> Seq<char>;

/// Calls `chrono::NaiveDate::parse_from_str` and counts the days of the date
/// with `num_days_from_ce`. Claimed: the result depends on the two texts
/// alone.
#[verifier::external_body]
fn parse_date(s: &str, fmt: &str) -> (r: Option<i32>)
    ensures
        r == calendar_day(s@, fmt@),
{
    match chrono::NaiveDate::parse_from_str(s, fmt) {
        Ok(date) => Some(date.num_days_from_ce()),
        Err(_) => None,
    }
}

/// Calls `chrono::Utc::now`. Claimed: the moment lies between the Unix epoch
/// and the last date of `chrono`, and its nanoseconds are less than a
/// second. Which moment that is rests on the machine's clock, and is not
/// claimed.
#[verifier::external_body]
pub(crate) fn utc_now() -> (r: Moment)
    ensures
        r.wf(),
{
    let now = chrono::Utc::now();
    Moment { secs: now.timestamp() as u64, nanos: now.timestamp_subsec_nanos() }
}

/// Calls `chrono::DateTime::from_timestamp` and `chrono::DateTime::format`.
/// Claimed: the text depends on the second and the format alone.
#[verifier::external_body]
fn format_utc(secs: u64, fmt: &str) -> (r: String)
    requires
        secs <= LAST_SECOND,
        fmt@ == "%Y-%m-%d %H:%M UTC"@,
    ensures
        r@ == utc_text(secs, fmt@),
{
    chrono::DateTime::from_timestamp(secs as i64, 0).unwrap().format(fmt).to_string()
}

/// Calls `chrono::DateTime::from_timestamp` and
/// `chrono::DateTime::to_rfc3339`. Claimed: the text depends on the moment
/// alone.
#[verifier::external_body]
fn format_rfc3339(at: Moment) -> (r: String)
    requires
        at.wf(),
    ensures
        r@ == rfc3339_text(at.secs, at.nanos),
{
    chrono::DateTime::from_timestamp(at.secs as i64, at.nanos).unwrap().to_rfc3339()
}

// ── Ages ─────────────────────────────────────────────────────────────

/// The day that the first ten bytes of `s` name as year, month and day.
pub open spec fn date_of(s: Text) -> Option<i32> {
    match byte_prefix(s, 10) {
        Some(p) => calendar_day(p, "%Y-%m-%d"@),
        None => None,
    }
}

/// The days from `day` to `today`, where there is a `day`.
pub open spec fn days_from(day: Option<i32>, today: i32) -> Option<i64> {
    match day {
        Some(d) => Some((today - d) as i64),
        None => None,
    }
}

/// The days from the date at the start of `s` to `today`.
pub open spec fn age(s: Text, today: i32) -> Option<i64> {
    days_from(date_of(s), today)
}

/// The whole days from the second `ts` to `now`, rounded toward zero.
pub open spec fn whole_days(now: Moment, ts: u64) -> int {
    if now.secs >= ts {
        (now.secs - ts) / 86_400
    } else if now.nanos > 0 {
        -((ts - now.secs - 1) / 86_400)
    } else {
        -((ts - now.secs) / 86_400)
    }
}

/// The days from `day` to `today`, where there is a `day`.
pub fn days_between(day: Option<i32>, today: i32) -> (r: Option<i64>)
    ensures
        r == days_from(day, today),
{
    match day {
        Some(d) => Some(today as i64 - d as i64),
        None => None,
    }
}

/// The days from the date at the start of `s` to `today`.
pub fn days_since_on(s: &str, today: i32) -> (r: Option<i64>)
    ensures
        r == age(s@, today),
{
    match get_prefix(s, 10) {
        Some(p) => days_between(parse_date(p, "%Y-%m-%d"), today),
        None => None,
    }
}

/// Safe date parsing: reads the first ten bytes of `s` as year, month and
/// day, and gives the days from that date to the current one. None where `s`
/// is too short or names no date.
pub fn days_since_date_prefix(s: &str) -> (r: Option<i64>)
    ensures
        r is Some <==> date_of(s@) is Some,
        exists|now: Moment| now.wf() && r == age(s@, #[trigger] now.day() as i32),
{
    let now = utc_now();
    let r = days_since_on(s, now.today());
    assert(now.wf() && r == age(s@, now.day() as i32));
    r
}

/// The whole days from the second `ts` since the Unix epoch to `now`,
/// rounded toward zero.
pub fn days_since_unix_at(now: Moment, ts: u64) -> (r: i64)
    requires
        now.wf(),
    ensures
        r == whole_days(now, ts),
{
    if now.secs >= ts {
        ((now.secs - ts) / 86_400) as i64
    } else if now.nanos > 0 {
        -(((ts - now.secs - 1) / 86_400) as i64)
    } else {
        -(((ts - now.secs) / 86_400) as i64)
    }
}

/// The whole days from the second `ts` since the Unix epoch to the current
/// moment, rounded toward zero.
pub fn days_since_unix(ts: u64) -> (r: i64)
    requires
        ts <= LAST_SECOND,
    ensures
        exists|now: Moment| #[trigger] now.wf() && r == whole_days(now, ts),
{
    let now = utc_now();
    days_since_unix_at(now, ts)
}

/// The second `secs` since the Unix epoch as a date and a time to the
/// minute, in UTC.
pub fn date_and_minute(secs: u64) -> (r: String)
    requires
        secs <= LAST_SECOND,
    ensures
        r@ == utc_text(secs, "%Y-%m-%d %H:%M UTC"@),
{
    format_utc(secs, "%Y-%m-%d %H:%M UTC")
}

/// The moment `at` in the notation of RFC 3339.
pub fn timestamp(at: Moment) -> (r: String)
    requires
        at.wf(),
    ensures
        r@ == rfc3339_text(at.secs, at.nanos),
{
    format_rfc3339(at)
}

/// The current moment. Which one that is rests on the machine's clock:
/// nothing more holds of every reading than that `chrono` can express it.
pub fn now() -> (r: Moment)
    ensures
        r.wf(),
{
    utc_now()
}

// ── Laws ─────────────────────────────────────────────────────────────

/// A day later every date is a day older.
pub proof fn law_age_grows(s: Text, today: i32)
    requires
        today < i32::MAX,
        age(s, today) is Some,
    ensures
        age(s, (today + 1) as i32) == Some((age(s, today)->0 + 1) as i64),
{
}

/// What follows the first ten bytes of a date has no part in its age.
pub proof fn law_age_of_prefix(s: Text, t: Text, today: i32)
    requires
        byte_prefix(s, 10) == byte_prefix(t, 10),
    ensures
        age(s, today) == age(t, today),
{
}

/// The age in days of a past second never shrinks as time goes on.
pub proof fn law_whole_days_grow(earlier: Moment, later: Moment, ts: u64)
    requires
        earlier.wf(),
        later.wf(),
        earlier.secs < later.secs || (earlier.secs == later.secs && earlier.nanos <= later.nanos),
    ensures
        whole_days(earlier, ts) <= whole_days(later, ts),
{
}

} // verus!
