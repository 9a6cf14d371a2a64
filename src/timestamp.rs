use vstd::arithmetic::div_mod::{lemma_fundamental_div_mod, lemma_fundamental_div_mod_converse};
use vstd::prelude::*;

verus! {

/// Nanoseconds in one calendar day.
pub const NANOS_PER_DAY: u64 = 86_400_000_000_000;

/// Largest magnitude of a well-formed day number (far beyond any calendar date).
pub const DAY_LIMIT: i64 = 1_099_511_627_776;

/// A local wall-clock instant: a day number (day 1 is Monday, 1 January of
/// year 1 in the proleptic Gregorian calendar) and the nanoseconds since
/// that day's midnight.
#[derive(Clone, Copy, Debug, PartialEq, Eq, Structural)]
pub struct Timestamp {
    pub day: i64,
    pub nanos: u64,
}

/// The day on which an instant (nanoseconds since the start of day 0) falls.
pub open spec fn day_of(t: int) -> int {
    t / (NANOS_PER_DAY as int)
}

/// The nanoseconds since midnight of an instant.
pub open spec fn time_of_day(t: int) -> int {
    t % (NANOS_PER_DAY as int)
}

/// The weekday of a day number: 0 is Monday, 6 is Sunday.
pub open spec fn weekday(d: int) -> int {
    (d + 6) % 7
}

/// The instant at a given time of day on a given day.
pub open spec fn at(d: int, tod: int) -> int {
    d * (NANOS_PER_DAY as int) + tod
}

impl View for Timestamp {
    type V = int;

    open spec fn view(&self) -> int {
        at(self.day as int, self.nanos as int)
    }
}

impl Timestamp {
    /// The time of day is below one day, and the day number is of sane size.
    pub open spec fn wf(&self) -> bool {
        self.nanos < NANOS_PER_DAY && -DAY_LIMIT <= self.day <= DAY_LIMIT
    }

    /// Builds an instant from a day number and nanoseconds since midnight;
    /// `None` where the parts are out of range.
    pub fn new(day: i64, nanos: u64) -> (r: Option<Timestamp>)
        ensures
            r == (if nanos < NANOS_PER_DAY && -DAY_LIMIT <= day <= DAY_LIMIT {
                Some(Timestamp { day, nanos })
            } else {
                None
            }),
    {
        if nanos < NANOS_PER_DAY && -DAY_LIMIT <= day && day <= DAY_LIMIT {
            Some(Timestamp { day, nanos })
        } else {
            None
        }
    }

    /// Whether `self` is at or before `other`.
    pub fn at_or_before(&self, other: &Timestamp) -> (r: bool)
        requires
            self.nanos < NANOS_PER_DAY,
            other.nanos < NANOS_PER_DAY,
        ensures
            r == (self@ <= other@),
    {
        proof {
            lemma_at_order(self.day as int, self.nanos as int, other.day as int, other.nanos as int);
            lemma_at_order(other.day as int, other.nanos as int, self.day as int, self.nanos as int);
        }
        self.day < other.day || (self.day == other.day && self.nanos <= other.nanos)
    }

    /// Nanoseconds from `self` until `later`, zero where `later` is not after
    /// `self`, and `u64::MAX` where the distance does not fit.
    pub fn nanos_until(&self, later: &Timestamp) -> (r: u64)
        requires
            self.nanos < NANOS_PER_DAY,
            later.nanos < NANOS_PER_DAY,
        ensures
            r as int == (if later@ <= self@ {
                0
            } else if later@ - self@ > u64::MAX {
                u64::MAX as int
            } else {
                later@ - self@
            }),
    {
        proof {
            lemma_at_bounds(self.day as int, self.nanos as int);
            lemma_at_bounds(later.day as int, later.nanos as int);
        }
        let a: i128 = self.day as i128 * NANOS_PER_DAY as i128 + self.nanos as i128;
        let b: i128 = later.day as i128 * NANOS_PER_DAY as i128 + later.nanos as i128;
        if b <= a {
            0
        } else if b - a > u64::MAX as i128 {
            u64::MAX
        } else {
            (b - a) as u64
        }
    }
}

/// An instant splits into its day and its time of day.
pub proof fn lemma_split(t: int)
    ensures
        t == at(day_of(t), time_of_day(t)),
        0 <= time_of_day(t) < NANOS_PER_DAY,
{
    lemma_fundamental_div_mod(t, NANOS_PER_DAY as int);
}

/// A day and a time of day below one day are recovered from their instant.
pub proof fn lemma_at_parts(d: int, tod: int)
    requires
        0 <= tod < NANOS_PER_DAY,
    ensures
        day_of(at(d, tod)) == d,
        time_of_day(at(d, tod)) == tod,
{
    lemma_fundamental_div_mod_converse(at(d, tod), NANOS_PER_DAY as int, d, tod);
}

/// The instant of any day number and time of day is far inside the range of `i128`.
proof fn lemma_at_bounds(d: int, tod: int)
    requires
        i64::MIN <= d <= i64::MAX,
        0 <= tod < NANOS_PER_DAY,
    ensures
        -0x100_0000_0000_0000_0000_0000_0000_0000 <= d * (NANOS_PER_DAY as int) <= 0x100_0000_0000_0000_0000_0000_0000_0000,
        -0x100_0000_0000_0000_0000_0000_0000_0000 <= at(d, tod) <= 0x100_0000_0000_0000_0000_0000_0000_0000,
{
    assert(i64::MIN * (NANOS_PER_DAY as int) <= d * (NANOS_PER_DAY as int) <= i64::MAX * (
    NANOS_PER_DAY as int)) by (nonlinear_arith)
        requires
            i64::MIN <= d <= i64::MAX,
    ;
}

/// Instants order by day first, then by time of day.
pub proof fn lemma_at_order(d1: int, r1: int, d2: int, r2: int)
    requires
        0 <= r1 < NANOS_PER_DAY,
        0 <= r2 < NANOS_PER_DAY,
    ensures
        at(d1, r1) <= at(d2, r2) <==> (d1 < d2 || (d1 == d2 && r1 <= r2)),
        at(d1, r1) < at(d2, r2) <==> (d1 < d2 || (d1 == d2 && r1 < r2)),
{
    let n = NANOS_PER_DAY as int;
    if d1 < d2 {
        assert(d1 * n + n <= d2 * n) by (nonlinear_arith)
            requires
                d1 < d2,
                n > 0,
        ;
    } else if d2 < d1 {
        assert(d2 * n + n <= d1 * n) by (nonlinear_arith)
            requires
                d2 < d1,
                n > 0,
        ;
    }
}

} // verus!
