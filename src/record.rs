use crate::timestamp::{Timestamp, NANOS_PER_DAY};
use chrono::{Datelike, Timelike};
use vstd::arithmetic::div_mod::lemma_fundamental_div_mod;
use vstd::prelude::*;

verus! {

/// Nanoseconds in one second.
pub const NANOS_PER_SEC: u64 = 1_000_000_000;

/// The first day of chrono's calendar, 1 January 262143 BCE.
pub const FIRST_CALENDAR_DAY: i64 = -95_746_129;

/// The last day of chrono's calendar, 31 December 262142.
pub const LAST_CALENDAR_DAY: i64 = 95_745_399;

/// The last day of year 9999, the last year written with four digits.
pub const LAST_FOUR_DIGIT_DAY: i64 = 3_652_059;

/// What chrono reads from a text as a local date and time: the day count
/// from the common era, the seconds since midnight and the nanoseconds
/// within the second.
pub uninterp spec fn parsed_date_time(s: Seq<char>) -> Option<(i32, u32, u32)>;

/// The text chrono writes for a date and time given as the day count from
/// the common era, the seconds since midnight and the nanoseconds within
/// the second.
pub uninterp spec fn formatted_date_time(day: i32, secs: u32, frac: u32) -> Seq<char>;

/// Relies on chrono's `FromStr` for `NaiveDateTime`: the parsed value read
/// back through `Datelike::num_days_from_ce`, `Timelike::num_seconds_from_midnight`
/// (below 86 400) and `Timelike::nanosecond` (below two seconds' worth, a
/// leap second reaching past one).
#[verifier::external_body]
fn parse_date_time(s: &str) -> (r: Option<(i32, u32, u32)>)
    ensures
        r == parsed_date_time(s@),
        r matches Some(p) ==> p.1 < 86_400 && p.2 < 2 * NANOS_PER_SEC,
{
    match s.parse::<chrono::NaiveDateTime>() {
        Ok(t) => Some((t.num_days_from_ce(), t.num_seconds_from_midnight(), t.nanosecond())),
        Err(_) => None,
    }
}

/// Relies on chrono's `NaiveDateTime::format` with the pattern
/// `%Y-%m-%dT%H:%M:%S.%f` and a line break, after building the value with
/// `NaiveDate::from_num_days_from_ce_opt` (a value for every day of
/// chrono's calendar) and `NaiveTime::from_num_seconds_from_midnight_opt`
/// (a value below 86 400 seconds and one second of nanoseconds). For years
/// 1 to 9999 the text has the fixed-width fields of `FromStr` for
/// `NaiveDateTime`, whose trailing whitespace item takes the line break, so
/// it reads back as the same parts.
#[verifier::external_body]
fn format_date_time(day: i32, secs: u32, frac: u32) -> (r: Option<String>)
    ensures
        r matches Some(s) ==> s@ == formatted_date_time(day, secs, frac),
        FIRST_CALENDAR_DAY <= day <= LAST_CALENDAR_DAY && secs < 86_400 && frac < NANOS_PER_SEC
            ==> r is Some,
        1 <= day <= LAST_FOUR_DIGIT_DAY && secs < 86_400 && frac < NANOS_PER_SEC ==> (r matches Some(
            s) ==> parsed_date_time(s@) == Some((day, secs, frac))),
{
    let date = chrono::NaiveDate::from_num_days_from_ce_opt(day)?;
    let time = chrono::NaiveTime::from_num_seconds_from_midnight_opt(secs, frac)?;
    Some(chrono::NaiveDateTime::new(date, time).format("%Y-%m-%dT%H:%M:%S.%f\n").to_string())
}

/// Relies on chrono's `Local::now` and `DateTime::naive_local`: the local
/// wall-clock time, read back as for `parse_date_time`.
#[verifier::external_body]
fn local_clock() -> (r: (i32, u32, u32))
    ensures
        r.1 < 86_400,
        r.2 < 2 * NANOS_PER_SEC,
{
    let t = chrono::Local::now().naive_local();
    (t.num_days_from_ce(), t.num_seconds_from_midnight(), t.nanosecond())
}

/// The instant of a clock reading: `secs` seconds past midnight of day
/// `day` plus `frac` nanoseconds, where a leap second (`frac` of one second
/// or more) reads as the last nanosecond of the second before it.
pub open spec fn clock_instant(day: i32, secs: u32, frac: u32) -> Option<Timestamp> {
    if secs < 86_400 && frac < 2 * NANOS_PER_SEC {
        Some(
            Timestamp {
                day: day as i64,
                nanos: (secs * NANOS_PER_SEC + if frac < NANOS_PER_SEC {
                    frac as int
                } else {
                    NANOS_PER_SEC - 1
                }) as u64,
            },
        )
    } else {
        None
    }
}

/// The instant that a next-fire record holds, `None` where chrono does not
/// read the text as a date and time.
pub open spec fn record_instant(s: Seq<char>) -> Option<Timestamp> {
    match parsed_date_time(s) {
        Some(p) => clock_instant(p.0, p.1, p.2),
        None => None,
    }
}

impl Timestamp {
    /// Builds an instant from a day count from the common era, the seconds
    /// since midnight and the nanoseconds within the second.
    pub fn from_clock(day: i32, secs: u32, frac: u32) -> (r: Option<Timestamp>)
        ensures
            r == clock_instant(day, secs, frac),
            r matches Some(t) ==> t.wf(),
    {
        if secs >= 86_400 || frac as u64 >= 2 * NANOS_PER_SEC {
            return None;
        }
        let sub: u64 = if (frac as u64) < NANOS_PER_SEC {
            frac as u64
        } else {
            NANOS_PER_SEC - 1
        };
        Some(Timestamp { day: day as i64, nanos: secs as u64 * NANOS_PER_SEC + sub })
    }
}

/// The local wall-clock time now.
pub fn now() -> (r: Timestamp)
    ensures
        r.wf(),
{
    let (day, secs, frac) = local_clock();
    Timestamp::from_clock(day, secs, frac).unwrap()
}

/// Reads a next-fire record; `None` where the text is not a date and time.
pub fn parse_record(s: &str) -> (r: Option<Timestamp>)
    ensures
        r == record_instant(s@),
        r matches Some(t) ==> t.wf(),
{
    match parse_date_time(s) {
        Some((day, secs, frac)) => Timestamp::from_clock(day, secs, frac),
        None => None,
    }
}

/// Writes a next-fire record; `None` exactly where the day lies outside
/// chrono's calendar. A record of years 1 to 9999 reads back as the same
/// instant.
pub fn format_record(t: &Timestamp) -> (r: Option<String>)
    requires
        t.nanos < NANOS_PER_DAY,
    ensures
        r matches Some(s) ==> s@ == formatted_date_time(
            t.day as i32,
            (t.nanos / NANOS_PER_SEC) as u32,
            (t.nanos % NANOS_PER_SEC) as u32,
        ),
        r is Some <== FIRST_CALENDAR_DAY <= t.day <= LAST_CALENDAR_DAY,
        !(i32::MIN <= t.day <= i32::MAX) ==> r is None,
        1 <= t.day <= LAST_FOUR_DIGIT_DAY ==> (r matches Some(s) ==> record_instant(s@) == Some(
            *t)),
{
    if t.day < i32::MIN as i64 || t.day > i32::MAX as i64 {
        return None;
    }
    proof {
        lemma_fundamental_div_mod(t.nanos as int, NANOS_PER_SEC as int);
        let q = t.nanos as int / NANOS_PER_SEC as int;
        assert(q < 86_400) by (nonlinear_arith)
            requires
                t.nanos == q * NANOS_PER_SEC + t.nanos as int % NANOS_PER_SEC as int,
                t.nanos as int % NANOS_PER_SEC as int >= 0,
                t.nanos < NANOS_PER_DAY,
        ;
    }
    format_date_time(t.day as i32, (t.nanos / NANOS_PER_SEC) as u32, (t.nanos % NANOS_PER_SEC) as u32)
}

} // verus!
