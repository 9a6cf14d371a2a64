use crate::timestamp::{at, lemma_at_order, Timestamp, NANOS_PER_DAY};
use crate::window::{lemma_earliest, lemma_latest, TimeWindow};
use rand::Rng;
use vstd::arithmetic::div_mod::lemma_fundamental_div_mod;
use vstd::prelude::*;

verus! {

/// How many gaps a candidate may be carried across before scheduling gives up.
pub const MAX_ELISIONS: usize = 1000;

/// Most nanoseconds that `u64` holds, in whole days, plus one.
pub const OFFSET_DAYS: i64 = 213_504;

/// Why no fire time could be chosen.
#[derive(Clone, Copy, Debug, PartialEq, Eq, Structural)]
pub enum ScheduleError {
    /// The candidate was still outside the window after the most gaps allowed.
    NoValidTime,
}

/// Why offset bounds were rejected.
#[derive(Clone, Copy, Debug, PartialEq, Eq, Structural)]
pub enum OffsetError {
    /// The lower bound exceeds the upper bound.
    Reversed,
    /// A bound in nanoseconds does not fit in `u64`.
    TooLarge,
}

/// The range, in nanoseconds, from which the delay after the anchor is drawn.
#[derive(Clone, Copy, Debug, PartialEq, Eq, Structural)]
pub struct OffsetRange {
    pub lower: u64,
    pub upper: u64,
}

impl OffsetRange {
    pub open spec fn wf(&self) -> bool {
        self.lower <= self.upper
    }

    /// Builds the range from bounds in whole seconds.
    pub fn from_secs(lower_secs: u64, upper_secs: u64) -> (r: Result<OffsetRange, OffsetError>)
        ensures
            r == (if lower_secs > upper_secs {
                Err(OffsetError::Reversed)
            } else if upper_secs * 1_000_000_000 > u64::MAX {
                Err(OffsetError::TooLarge)
            } else {
                Ok(
                    OffsetRange {
                        lower: (lower_secs * 1_000_000_000) as u64,
                        upper: (upper_secs * 1_000_000_000) as u64,
                    },
                )
            }),
    {
        if lower_secs > upper_secs {
            return Err(OffsetError::Reversed);
        }
        if upper_secs > u64::MAX / 1_000_000_000 {
            return Err(OffsetError::TooLarge);
        }
        Ok(OffsetRange { lower: lower_secs * 1_000_000_000, upper: upper_secs * 1_000_000_000 })
    }
}

/// Carries a candidate across gaps: while it is outside the window, the
/// distance by which it overshot the last valid instant is laid down again
/// from the next valid instant. `None` once `fuel` crossings did not suffice.
pub open spec fn elide(w: TimeWindow, c: int, fuel: nat) -> Option<int>
    decreases fuel,
{
    if w.valid_at(c) {
        Some(c)
    } else if fuel == 0 {
        None
    } else {
        elide(w, w.earliest(c) + (c - w.latest(c)), (fuel - 1) as nat)
    }
}

/// The fire time chosen at `now` for a drawn offset: the offset is laid
/// from the latest valid instant at or before `now`, skipping every gap.
pub open spec fn scheduled(w: TimeWindow, now: int, offset: int) -> Option<int> {
    elide(w, w.latest(now) + offset, MAX_ELISIONS as nat)
}

/// The instant of a scheduling result, `None` for an error.
pub open spec fn instant_of(r: Result<Timestamp, ScheduleError>) -> Option<int> {
    match r {
        Ok(t) => Some(t@),
        Err(_) => None,
    }
}

/// A result of `elide` lies inside the window.
pub proof fn lemma_elide_valid(w: TimeWindow, c: int, fuel: nat)
    ensures
        elide(w, c, fuel) matches Some(x) ==> w.valid_at(x),
    decreases fuel,
{
    if !w.valid_at(c) && fuel > 0 {
        lemma_elide_valid(w, w.earliest(c) + (c - w.latest(c)), (fuel - 1) as nat);
    }
}

/// A result of `elide` is never before the candidate it started from.
pub proof fn lemma_elide_not_before(w: TimeWindow, c: int, fuel: nat)
    requires
        w.wf(),
    ensures
        elide(w, c, fuel) matches Some(x) ==> c <= x,
    decreases fuel,
{
    if !w.valid_at(c) && fuel > 0 {
        lemma_latest(w, c);
        lemma_earliest(w, c);
        lemma_elide_not_before(w, w.earliest(c) + (c - w.latest(c)), (fuel - 1) as nat);
    }
}

proof fn lemma_days_below(n: int, k: int)
    requires
        0 <= n < k * NANOS_PER_DAY,
    ensures
        n / (NANOS_PER_DAY as int) < k,
{
    lemma_fundamental_div_mod(n, NANOS_PER_DAY as int);
    let q = n / (NANOS_PER_DAY as int);
    assert(q < k) by (nonlinear_arith)
        requires
            n == q * NANOS_PER_DAY + n % (NANOS_PER_DAY as int),
            n % (NANOS_PER_DAY as int) >= 0,
            n < k * NANOS_PER_DAY,
    ;
}

/// `t` moved `n` nanoseconds later.
fn add_nanos(t: &Timestamp, n: u64) -> (r: Timestamp)
    requires
        t.nanos < NANOS_PER_DAY,
        t.day <= i64::MAX - OFFSET_DAYS - 1,
    ensures
        r@ == t@ + n,
        r.nanos < NANOS_PER_DAY,
        t.day <= r.day <= t.day + n as int / (NANOS_PER_DAY as int) + 1,
{
    let q: u64 = n / NANOS_PER_DAY;
    let rem: u64 = n % NANOS_PER_DAY;
    proof {
        lemma_fundamental_div_mod(n as int, NANOS_PER_DAY as int);
        lemma_days_below(n as int, OFFSET_DAYS as int);
    }
    let mut day: i64 = t.day + q as i64;
    let mut nanos: u64 = t.nanos + rem;
    if nanos >= NANOS_PER_DAY {
        nanos = nanos - NANOS_PER_DAY;
        day = day + 1;
    }
    assert(at(day as int, nanos as int) == t@ + n) by (nonlinear_arith)
        requires
            n == q * NANOS_PER_DAY + rem,
            t@ == t.day * NANOS_PER_DAY + t.nanos,
            (day == t.day + q && nanos == t.nanos + rem) || (day == t.day + q + 1 && nanos
                + NANOS_PER_DAY == t.nanos + rem),
            at(day as int, nanos as int) == day * NANOS_PER_DAY + nanos,
    ;
    Timestamp { day, nanos }
}

/// Nanoseconds from `a` to the later `b`, where they are under eight days apart.
fn nanos_between(a: &Timestamp, b: &Timestamp) -> (r: u64)
    requires
        a.nanos < NANOS_PER_DAY,
        b.nanos < NANOS_PER_DAY,
        a@ <= b@,
        b.day - a.day <= 7,
    ensures
        r == b@ - a@,
        r < 8 * NANOS_PER_DAY,
{
    proof {
        lemma_at_order(a.day as int, a.nanos as int, b.day as int, b.nanos as int);
    }
    let days: u64 = (b.day - a.day) as u64;
    assert(days * NANOS_PER_DAY <= 7 * NANOS_PER_DAY) by (nonlinear_arith)
        requires
            days <= 7,
    ;
    assert(days >= 1 ==> days * NANOS_PER_DAY >= NANOS_PER_DAY) by (nonlinear_arith);
    let r = days * NANOS_PER_DAY + b.nanos - a.nanos;
    assert(r == b@ - a@) by (nonlinear_arith)
        requires
            r == days * NANOS_PER_DAY + b.nanos - a.nanos,
            days == b.day - a.day,
            b@ == b.day * NANOS_PER_DAY + b.nanos,
            a@ == a.day * NANOS_PER_DAY + a.nanos,
    ;
    r
}

/// The fire time chosen at `now` when `offset` nanoseconds were drawn.
/// Fails where the candidate is still outside the window after
/// `MAX_ELISIONS` gaps were skipped.
pub fn schedule_with_offset(w: &TimeWindow, now: &Timestamp, offset: u64) -> (r: Result<
    Timestamp,
    ScheduleError,
>)
    requires
        w.wf(),
        now.wf(),
    ensures
        instant_of(r) == scheduled(*w, now@, offset as int),
        r matches Ok(t) ==> w.valid_at(t@) && t.nanos < NANOS_PER_DAY,
{
    let anchor = w.latest_valid_at_or_before(now);
    let mut c = add_nanos(&anchor, offset);
    let mut fuel: usize = MAX_ELISIONS;
    proof {
        lemma_days_below(offset as int, OFFSET_DAYS as int);
    }
    while !w.is_valid(&c)
        invariant
            w.wf(),
            now.wf(),
            elide(*w, c@, fuel as nat) == scheduled(*w, now@, offset as int),
            c.nanos < NANOS_PER_DAY,
            now.day - 7 <= c.day <= now.day + OFFSET_DAYS + 1 + 16 * (MAX_ELISIONS - fuel),
            fuel <= MAX_ELISIONS,
        decreases fuel,
    {
        if fuel == 0 {
            return Err(ScheduleError::NoValidTime);
        }
        let last = w.latest_valid_at_or_before(&c);
        let over = nanos_between(&last, &c);
        let next = w.earliest_valid_at_or_after(&c);
        proof {
            lemma_days_below(over as int, 8);
        }
        c = add_nanos(&next, over);
        fuel = fuel - 1;
    }
    proof {
        lemma_elide_valid(*w, c@, fuel as nat);
    }
    Ok(c)
}

/// Relies on `rand::Rng::gen_range` with an inclusive range on the
/// thread-local generator: a value within the bounds, which panics only
/// on an empty range.
#[verifier::external_body]
fn random_between(lo: u64, hi: u64) -> (r: u64)
    requires
        lo <= hi,
    ensures
        lo <= r <= hi,
{
    rand::thread_rng().gen_range(lo..=hi)
}

/// An offset drawn from `offsets`.
pub(crate) fn draw_offset(offsets: &OffsetRange) -> (r: u64)
    requires
        offsets.wf(),
    ensures
        offsets.lower <= r <= offsets.upper,
{
    random_between(offsets.lower, offsets.upper)
}

/// Picks a new fire time at `now`: an offset is drawn from `offsets` and
/// carried forward from the latest valid instant as `schedule_with_offset`
/// does. Whatever is drawn, a chosen time lies inside the window.
pub fn schedule_new_fire(w: &TimeWindow, offsets: &OffsetRange, now: &Timestamp) -> (r: Result<
    Timestamp,
    ScheduleError,
>)
    requires
        w.wf(),
        offsets.wf(),
        now.wf(),
    ensures
        exists|off: int|
            offsets.lower <= off <= offsets.upper && #[trigger] scheduled(*w, now@, off)
                == instant_of(r),
        r matches Ok(t) ==> w.valid_at(t@) && t.nanos < NANOS_PER_DAY,
{
    let off = draw_offset(offsets);
    schedule_with_offset(w, now, off)
}

} // verus!
