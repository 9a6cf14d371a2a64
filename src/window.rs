use crate::timestamp::{
    at, day_of, lemma_at_order, lemma_at_parts, lemma_split, time_of_day, weekday, Timestamp,
    NANOS_PER_DAY,
};
use vstd::arithmetic::div_mod::{lemma_fundamental_div_mod, lemma_fundamental_div_mod_converse};
use vstd::prelude::*;

verus! {

/// Why a set of window parameters was rejected.
#[derive(Clone, Copy, Debug, PartialEq, Eq, Structural)]
pub enum WindowError {
    /// A weekday number is not in `0..=6`.
    BadWeekday,
    /// No weekday is allowed, so no instant could ever be valid.
    NoWeekdays,
    /// A time of day is not below one day.
    TimeOutOfRange,
    /// The window opens after it closes.
    StartAfterEnd,
}

/// The recurring window in which firing is allowed: a set of weekdays
/// (0 is Monday) and an inclusive time-of-day range, in nanoseconds since
/// midnight, that is the same on each of them.
#[derive(Clone, Copy, Debug)]
pub struct TimeWindow {
    pub weekdays: [bool; 7],
    pub start: u64,
    pub end: u64,
}

impl TimeWindow {
    /// At least one weekday is allowed, and `start <= end` within one day.
    pub open spec fn wf(&self) -> bool {
        &&& exists|k: int| 0 <= k < 7 && self.weekdays@[k]
        &&& self.start <= self.end < NANOS_PER_DAY
    }

    /// Whether firing is allowed on day `d`.
    pub open spec fn allows_day(&self, d: int) -> bool {
        self.weekdays@[weekday(d)]
    }

    /// Whether instant `t` lies inside the window.
    pub open spec fn valid_at(&self, t: int) -> bool {
        self.allows_day(day_of(t)) && self.start <= time_of_day(t) <= self.end
    }

    /// Walks back from day `d`, at most `fuel` days, to an allowed day.
    pub open spec fn prev_allowed(&self, d: int, fuel: nat) -> int
        decreases fuel,
    {
        if fuel == 0 || self.allows_day(d) {
            d
        } else {
            self.prev_allowed(d - 1, (fuel - 1) as nat)
        }
    }

    /// Walks forward from day `d`, at most `fuel` days, to an allowed day.
    pub open spec fn next_allowed(&self, d: int, fuel: nat) -> int
        decreases fuel,
    {
        if fuel == 0 || self.allows_day(d) {
            d
        } else {
            self.next_allowed(d + 1, (fuel - 1) as nat)
        }
    }

    /// The latest valid instant at or before `t`: `t` itself where it is
    /// valid, else the close of the window on the last allowed day whose
    /// window has begun by `t`.
    pub open spec fn latest(&self, t: int) -> int {
        if self.valid_at(t) {
            t
        } else {
            let base = if time_of_day(t) < self.start {
                day_of(t) - 1
            } else {
                day_of(t)
            };
            at(self.prev_allowed(base, 6), self.end as int)
        }
    }

    /// The earliest valid instant at or after `t`: `t` itself where it is
    /// valid, else the opening of the window on the first allowed day whose
    /// window has not closed by `t`.
    pub open spec fn earliest(&self, t: int) -> int {
        if self.valid_at(t) {
            t
        } else {
            let base = if time_of_day(t) > self.end {
                day_of(t) + 1
            } else {
                day_of(t)
            };
            at(self.next_allowed(base, 6), self.start as int)
        }
    }

    /// Builds a window from weekday numbers (0 is Monday; repeats are
    /// ignored) and the opening and closing times of day in nanoseconds.
    pub fn new(weekdays: &Vec<u8>, start: u64, end: u64) -> (r: Result<TimeWindow, WindowError>)
        ensures
            r == (if exists|i: int| 0 <= i < weekdays@.len() && weekdays@[i] > 6 {
                Err(WindowError::BadWeekday)
            } else if weekdays@.len() == 0 {
                Err(WindowError::NoWeekdays)
            } else if start >= NANOS_PER_DAY || end >= NANOS_PER_DAY {
                Err(WindowError::TimeOutOfRange)
            } else if start > end {
                Err(WindowError::StartAfterEnd)
            } else {
                Ok(r->Ok_0)
            }),
            r is Ok ==> r->Ok_0.wf() && r->Ok_0.start == start && r->Ok_0.end == end,
            r is Ok ==> forall|k: int|
                0 <= k < 7 ==> (r->Ok_0.weekdays@[k] <==> weekdays@.contains(k as u8)),
    {
        let mut days = [false, false, false, false, false, false, false];
        let mut i: usize = 0;
        while i < weekdays.len()
            invariant
                0 <= i <= weekdays@.len(),
                forall|j: int| 0 <= j < i ==> weekdays@[j] <= 6,
                forall|k: int|
                    0 <= k < 7 ==> (days@[k] <==> exists|j: int| 0 <= j < i && weekdays@[j] == k),
            decreases weekdays@.len() - i,
        {
            let w = weekdays[i];
            if w > 6 {
                return Err(WindowError::BadWeekday);
            }
            days[w as usize] = true;
            i = i + 1;
            assert forall|k: int|
                0 <= k < 7 implies (days@[k] <==> exists|j: int| 0 <= j < i && weekdays@[j] == k) by {
                if days@[k] && k != w {
                    let j = choose|j: int| 0 <= j < i - 1 && weekdays@[j] == k;
                    assert(0 <= j < i);
                }
            }
        }
        assert forall|k: int| 0 <= k < 7 implies (days@[k] <==> weekdays@.contains(k as u8)) by {
            if weekdays@.contains(k as u8) {
                let j = choose|j: int| 0 <= j < weekdays@.len() && weekdays@[j] == k as u8;
                assert(weekdays@[j] == k);
            }
            if days@[k] {
                let j = choose|j: int| 0 <= j < weekdays@.len() && weekdays@[j] == k;
                assert(weekdays@[j] == k as u8);
            }
        }
        if weekdays.len() == 0 {
            return Err(WindowError::NoWeekdays);
        }
        let ghost k0 = weekdays@[0] as int;
        assert(weekdays@[0] == k0 as u8);
        if start >= NANOS_PER_DAY || end >= NANOS_PER_DAY {
            return Err(WindowError::TimeOutOfRange);
        }
        if start > end {
            return Err(WindowError::StartAfterEnd);
        }
        let r = TimeWindow { weekdays: days, start, end };
        assert(r.weekdays@[k0]);
        Ok(r)
    }

    /// Whether firing is allowed on day `day`.
    fn allows(&self, day: i64) -> (r: bool)
        ensures
            r == self.allows_day(day as int),
    {
        self.weekdays[weekday_index(day)]
    }

    /// Whether instant `t` lies inside the window.
    pub fn is_valid(&self, t: &Timestamp) -> (r: bool)
        requires
            t.nanos < NANOS_PER_DAY,
        ensures
            r == self.valid_at(t@),
    {
        proof {
            lemma_at_parts(t.day as int, t.nanos as int);
        }
        self.allows(t.day) && self.start <= t.nanos && t.nanos <= self.end
    }

    /// The latest valid instant at or before `t`.
    pub fn latest_valid_at_or_before(&self, t: &Timestamp) -> (r: Timestamp)
        requires
            self.wf(),
            t.nanos < NANOS_PER_DAY,
            i64::MIN + 7 <= t.day,
        ensures
            r@ == self.latest(t@),
            self.valid_at(r@),
            r@ <= t@,
            forall|s: int| r@ < s <= t@ ==> !self.valid_at(s),
            r.nanos < NANOS_PER_DAY,
            t.day - 7 <= r.day <= t.day,
    {
        proof {
            lemma_at_parts(t.day as int, t.nanos as int);
            lemma_latest(*self, t@);
        }
        if self.is_valid(t) {
            return *t;
        }
        let base: i64 = if t.nanos < self.start {
            t.day - 1
        } else {
            t.day
        };
        let ghost p = self.prev_allowed(base as int, 6);
        proof {
            lemma_prev_allowed(*self, base as int);
        }
        let mut day: i64 = base;
        while !self.allows(day)
            invariant
                p <= day <= base,
                base - 6 <= p,
                t.day - 1 <= base,
                i64::MIN + 7 <= t.day,
                self.allows_day(p),
                forall|e: int| p < e <= base ==> !self.allows_day(e),
            decreases day - p,
        {
            day = day - 1;
        }
        Timestamp { day, nanos: self.end }
    }

    /// The earliest valid instant at or after `t`.
    pub fn earliest_valid_at_or_after(&self, t: &Timestamp) -> (r: Timestamp)
        requires
            self.wf(),
            t.nanos < NANOS_PER_DAY,
            t.day <= i64::MAX - 7,
        ensures
            r@ == self.earliest(t@),
            self.valid_at(r@),
            t@ <= r@,
            forall|s: int| t@ <= s < r@ ==> !self.valid_at(s),
            r.nanos < NANOS_PER_DAY,
            t.day <= r.day <= t.day + 7,
    {
        proof {
            lemma_at_parts(t.day as int, t.nanos as int);
            lemma_earliest(*self, t@);
        }
        if self.is_valid(t) {
            return *t;
        }
        let base: i64 = if t.nanos > self.end {
            t.day + 1
        } else {
            t.day
        };
        let ghost p = self.next_allowed(base as int, 6);
        proof {
            lemma_next_allowed(*self, base as int);
        }
        let mut day: i64 = base;
        while !self.allows(day)
            invariant
                base <= day <= p,
                p <= base + 6,
                base <= t.day + 1,
                t.day <= i64::MAX - 7,
                self.allows_day(p),
                forall|e: int| base <= e < p ==> !self.allows_day(e),
            decreases p - day,
        {
            day = day + 1;
        }
        Timestamp { day, nanos: self.start }
    }
}

/// The weekday of day number `day`, computed without signed remainders.
fn weekday_index(day: i64) -> (r: usize)
    ensures
        r as int == weekday(day as int),
        r < 7,
{
    let shifted: i128 = day as i128 + 0x3_8000_0000_0000_0006;
    let x: u128 = shifted as u128;
    proof {
        let m: int = 0x8000_0000_0000_0000;
        assert(x == 7 * m + (day + 6));
        lemma_fundamental_div_mod(day + 6, 7);
        let q = (day + 6) / 7;
        lemma_fundamental_div_mod_converse(x as int, 7, m + q, (day + 6) % 7);
    }
    (x % 7) as usize
}

/// Consecutive days have consecutive weekdays.
proof fn lemma_weekday_next(d: int)
    ensures
        weekday(d + 1) == (if weekday(d) == 6 { 0 } else { weekday(d) + 1 }),
{
    lemma_fundamental_div_mod(d + 6, 7);
    let q = (d + 6) / 7;
    if weekday(d) == 6 {
        lemma_fundamental_div_mod_converse(d + 7, 7, q + 1, 0);
    } else {
        lemma_fundamental_div_mod_converse(d + 7, 7, q, weekday(d) + 1);
    }
}

/// Among any seven consecutive days one is allowed.
proof fn lemma_week_has_allowed_day(w: TimeWindow, d: int) -> (j: int)
    requires
        w.wf(),
    ensures
        0 <= j < 7,
        w.allows_day(d + j),
{
    lemma_weekday_next(d);
    lemma_weekday_next(d + 1);
    lemma_weekday_next(d + 2);
    lemma_weekday_next(d + 3);
    lemma_weekday_next(d + 4);
    lemma_weekday_next(d + 5);
    lemma_fundamental_div_mod(d + 6, 7);
    let k = choose|k: int| 0 <= k < 7 && w.weekdays@[k];
    let j: int = if k >= weekday(d) {
        k - weekday(d)
    } else {
        k + 7 - weekday(d)
    };
    assert(weekday(d + j) == k);
    j
}

proof fn lemma_prev_steps(w: TimeWindow, d: int, fuel: nat)
    ensures
        d - fuel <= w.prev_allowed(d, fuel) <= d,
        w.allows_day(w.prev_allowed(d, fuel)) || w.prev_allowed(d, fuel) == d - fuel,
        forall|e: int| w.prev_allowed(d, fuel) < e <= d ==> !w.allows_day(e),
    decreases fuel,
{
    if fuel > 0 && !w.allows_day(d) {
        lemma_prev_steps(w, d - 1, (fuel - 1) as nat);
    }
}

proof fn lemma_next_steps(w: TimeWindow, d: int, fuel: nat)
    ensures
        d <= w.next_allowed(d, fuel) <= d + fuel,
        w.allows_day(w.next_allowed(d, fuel)) || w.next_allowed(d, fuel) == d + fuel,
        forall|e: int| d <= e < w.next_allowed(d, fuel) ==> !w.allows_day(e),
    decreases fuel,
{
    if fuel > 0 && !w.allows_day(d) {
        lemma_next_steps(w, d + 1, (fuel - 1) as nat);
    }
}

/// Walking back at most six days always reaches the last allowed day.
proof fn lemma_prev_allowed(w: TimeWindow, d: int)
    requires
        w.wf(),
    ensures
        w.allows_day(w.prev_allowed(d, 6)),
        d - 6 <= w.prev_allowed(d, 6) <= d,
        forall|e: int| w.prev_allowed(d, 6) < e <= d ==> !w.allows_day(e),
{
    lemma_prev_steps(w, d, 6);
    let j = lemma_week_has_allowed_day(w, d - 6);
    assert(w.allows_day(d - 6 + j));
}

/// Walking forward at most six days always reaches the next allowed day.
proof fn lemma_next_allowed(w: TimeWindow, d: int)
    requires
        w.wf(),
    ensures
        w.allows_day(w.next_allowed(d, 6)),
        d <= w.next_allowed(d, 6) <= d + 6,
        forall|e: int| d <= e < w.next_allowed(d, 6) ==> !w.allows_day(e),
{
    lemma_next_steps(w, d, 6);
    let j = lemma_week_has_allowed_day(w, d);
    assert(w.allows_day(d + j));
}

/// `latest(t)` is the greatest valid instant not after `t`, at most seven
/// days before it.
pub proof fn lemma_latest(w: TimeWindow, t: int)
    requires
        w.wf(),
    ensures
        w.valid_at(w.latest(t)),
        w.latest(t) <= t,
        forall|s: int| w.latest(t) < s <= t ==> !w.valid_at(s),
        day_of(t) - 7 <= day_of(w.latest(t)) <= day_of(t),
        time_of_day(w.latest(t)) == (if w.valid_at(t) { time_of_day(t) } else { w.end as int }),
{
    lemma_split(t);
    if !w.valid_at(t) {
        let dt = day_of(t);
        let rt = time_of_day(t);
        let base = if rt < w.start {
            dt - 1
        } else {
            dt
        };
        let p = w.prev_allowed(base, 6);
        lemma_prev_allowed(w, base);
        lemma_at_parts(p, w.end as int);
        lemma_at_order(p, w.end as int, dt, rt);
        assert forall|s: int| w.latest(t) < s <= t implies !w.valid_at(s) by {
            lemma_split(s);
            lemma_at_order(p, w.end as int, day_of(s), time_of_day(s));
            lemma_at_order(day_of(s), time_of_day(s), dt, rt);
        }
    }
}

/// `earliest(t)` is the least valid instant not before `t`, at most seven
/// days after it.
pub proof fn lemma_earliest(w: TimeWindow, t: int)
    requires
        w.wf(),
    ensures
        w.valid_at(w.earliest(t)),
        t <= w.earliest(t),
        forall|s: int| t <= s < w.earliest(t) ==> !w.valid_at(s),
        day_of(t) <= day_of(w.earliest(t)) <= day_of(t) + 7,
        time_of_day(w.earliest(t)) == (if w.valid_at(t) { time_of_day(t) } else { w.start as int }),
{
    lemma_split(t);
    if !w.valid_at(t) {
        let dt = day_of(t);
        let rt = time_of_day(t);
        let base = if rt > w.end {
            dt + 1
        } else {
            dt
        };
        let p = w.next_allowed(base, 6);
        lemma_next_allowed(w, base);
        lemma_at_parts(p, w.start as int);
        lemma_at_order(dt, rt, p, w.start as int);
        assert forall|s: int| t <= s < w.earliest(t) implies !w.valid_at(s) by {
            lemma_split(s);
            lemma_at_order(day_of(s), time_of_day(s), p, w.start as int);
            lemma_at_order(dt, rt, day_of(s), time_of_day(s));
        }
    }
}

/// Both snaps land inside the window, and a valid instant is its own snap.
pub proof fn lemma_snaps_land_in_window(w: TimeWindow, t: int)
    requires
        w.wf(),
    ensures
        w.valid_at(w.latest(t)),
        w.valid_at(w.earliest(t)),
        w.valid_at(t) ==> w.latest(t) == t && w.earliest(t) == t,
{
    lemma_latest(w, t);
    lemma_earliest(w, t);
}

/// Each snap moves only in its own direction: the latest valid instant is
/// never after `t`, the earliest never before it.
pub proof fn lemma_snaps_keep_direction(w: TimeWindow, t: int)
    requires
        w.wf(),
    ensures
        w.latest(t) <= t,
        t <= w.earliest(t),
{
    lemma_latest(w, t);
    lemma_earliest(w, t);
}

/// Snapping back twice is snapping back once.
pub proof fn lemma_latest_idempotent(w: TimeWindow, t: int)
    requires
        w.wf(),
    ensures
        w.latest(w.latest(t)) == w.latest(t),
{
    lemma_latest(w, t);
}

} // verus!
