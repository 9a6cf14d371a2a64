use crate::schedule::{
    lemma_elide_not_before, lemma_elide_valid, schedule_with_offset, scheduled, OffsetRange, ScheduleError,
    MAX_ELISIONS,
};
use crate::timestamp::{day_of, Timestamp, NANOS_PER_DAY};
use crate::window::{lemma_latest, TimeWindow};
use vstd::prelude::*;

verus! {

/// The settings a scheduling pass works with.
#[derive(Clone, Copy, Debug)]
pub struct Config {
    pub window: TimeWindow,
    pub offsets: OffsetRange,
}

impl Config {
    pub open spec fn wf(&self) -> bool {
        self.window.wf() && self.offsets.wf()
    }

    /// Bundles a window and an offset range.
    pub fn new(window: TimeWindow, offsets: OffsetRange) -> (r: Config)
        ensures
            r == (Config { window, offsets }),
    {
        Config { window, offsets }
    }
}

/// What woke the loop.
#[derive(Clone, Copy, Debug)]
pub enum Event {
    /// The configuration changed and was read successfully.
    Reloaded(Config),
    /// The configuration changed but could not be read; the last good one stays.
    ReloadFailed,
    /// The countdown reached its deadline.
    CountdownElapsed,
}

impl Event {
    pub open spec fn wf(&self) -> bool {
        match self {
            Event::Reloaded(c) => c.wf(),
            _ => true,
        }
    }
}

/// What a re-evaluation pass decided.
#[derive(Clone, Copy, Debug, PartialEq, Eq, Structural)]
pub enum Outcome {
    /// No configuration has been read yet, so nothing can be scheduled.
    Unconfigured,
    /// The committed fire time is not due: count down to it.
    Wait(Timestamp),
    /// Trigger the action first where `fire` holds, then persist `next`
    /// and count down to it.
    Reschedule { fire: bool, next: Timestamp },
    /// Trigger the action first where `fire` holds; no new fire time could
    /// be chosen under this configuration.
    Failed { fire: bool, error: ScheduleError },
}

/// Whether a pass fires: a commitment exists, is due, and `now` lies
/// inside the window.
pub open spec fn due_in_window(c: Config, persisted: Option<Timestamp>, now: Timestamp) -> bool {
    match persisted {
        Some(p) => p@ <= now@ && c.window.valid_at(now@),
        None => false,
    }
}

/// Whether `r` is what a pass decides under configuration `c` at `now`,
/// with committed fire time `persisted` and drawn offset `offset`: a
/// commitment still ahead and inside the window is waited for; a due one
/// fires only where `now` is inside the window; a due, missing or no longer
/// valid one is replaced by a new time.
pub open spec fn pass_result(
    c: Config,
    persisted: Option<Timestamp>,
    now: Timestamp,
    offset: int,
    r: Outcome,
) -> bool {
    match persisted {
        Some(p) if now@ < p@ && c.window.valid_at(p@) => r == Outcome::Wait(p),
        _ => {
            let fire = due_in_window(c, persisted, now);
            match scheduled(c.window, now@, offset) {
                Some(x) => r matches Outcome::Reschedule { fire: f, next } && f == fire && next@ == x
                    && next.nanos < NANOS_PER_DAY,
                None => r == (Outcome::Failed { fire, error: ScheduleError::NoValidTime }),
            }
        },
    }
}

/// The single owner of the loop's configuration.
#[derive(Clone, Copy, Debug)]
pub struct Reactor {
    pub config: Option<Config>,
}

impl Reactor {
    pub open spec fn wf(&self) -> bool {
        self.config matches Some(c) ==> c.wf()
    }

    /// The configuration after `event`.
    pub open spec fn config_after(&self, event: Event) -> Option<Config> {
        match event {
            Event::Reloaded(c) => Some(c),
            _ => self.config,
        }
    }

    /// A loop that has not read any configuration yet.
    pub fn new() -> (r: Reactor)
        ensures
            r.config is None,
            r.wf(),
    {
        Reactor { config: None }
    }

    /// Takes in the configuration that `event` carries, if any.
    pub fn apply(&mut self, event: Event)
        requires
            event.wf(),
            old(self).wf(),
        ensures
            final(self).config == old(self).config_after(event),
            final(self).wf(),
    {
        match event {
            Event::Reloaded(c) => {
                self.config = Some(c);
            },
            _ => {},
        }
    }

    /// A re-evaluation pass with a given drawn offset.
    pub fn evaluate_with_offset(&self, persisted: Option<Timestamp>, now: &Timestamp, offset: u64) -> (r:
        Outcome)
        requires
            self.wf(),
            now.wf(),
            persisted matches Some(p) ==> p.wf(),
        ensures
            match self.config {
                None => r == Outcome::Unconfigured,
                Some(c) => pass_result(c, persisted, *now, offset as int, r),
            },
    {
        let c = match self.config {
            None => {
                return Outcome::Unconfigured;
            },
            Some(c) => c,
        };
        let fire = match persisted {
            Some(p) => {
                let due = p.at_or_before(now);
                if !due && c.window.is_valid(&p) {
                    return Outcome::Wait(p);
                }
                due && c.window.is_valid(now)
            },
            None => false,
        };
        match schedule_with_offset(&c.window, now, offset) {
            Ok(next) => Outcome::Reschedule { fire, next },
            Err(error) => Outcome::Failed { fire, error },
        }
    }

    /// A re-evaluation pass: the offset is drawn from the configured range
    /// where a new fire time is needed.
    pub fn evaluate(&self, persisted: Option<Timestamp>, now: &Timestamp) -> (r: Outcome)
        requires
            self.wf(),
            now.wf(),
            persisted matches Some(p) ==> p.wf(),
        ensures
            match self.config {
                None => r == Outcome::Unconfigured,
                Some(c) => exists|off: int|
                    c.offsets.lower <= off <= c.offsets.upper && #[trigger] pass_result(
                        c,
                        persisted,
                        *now,
                        off,
                        r,
                    ),
            },
    {
        match self.config {
            None => Outcome::Unconfigured,
            Some(c) => {
                let off = crate::schedule::draw_offset(&c.offsets);
                self.evaluate_with_offset(persisted, now, off)
            },
        }
    }

    /// Handles one event: takes in its configuration, then re-evaluates
    /// with a given drawn offset.
    pub fn handle_with_offset(
        &mut self,
        event: Event,
        persisted: Option<Timestamp>,
        now: &Timestamp,
        offset: u64,
    ) -> (r: Outcome)
        requires
            old(self).wf(),
            event.wf(),
            now.wf(),
            persisted matches Some(p) ==> p.wf(),
        ensures
            final(self).config == old(self).config_after(event),
            final(self).wf(),
            match final(self).config {
                None => r == Outcome::Unconfigured,
                Some(c) => pass_result(c, persisted, *now, offset as int, r),
            },
    {
        self.apply(event);
        self.evaluate_with_offset(persisted, now, offset)
    }

    /// Handles one event: takes in its configuration, then re-evaluates.
    pub fn handle(&mut self, event: Event, persisted: Option<Timestamp>, now: &Timestamp) -> (r:
        Outcome)
        requires
            old(self).wf(),
            event.wf(),
            now.wf(),
            persisted matches Some(p) ==> p.wf(),
        ensures
            final(self).config == old(self).config_after(event),
            final(self).wf(),
            match final(self).config {
                None => r == Outcome::Unconfigured,
                Some(c) => exists|off: int|
                    c.offsets.lower <= off <= c.offsets.upper && #[trigger] pass_result(
                        c,
                        persisted,
                        *now,
                        off,
                        r,
                    ),
            },
    {
        self.apply(event);
        self.evaluate(persisted, now)
    }
}

/// After a restart with a due commitment while the window is open, the
/// pass fires exactly once, whether or not a new time can be chosen. Where
/// one is chosen it is committed, lies inside the window and not before
/// `now`; where it lies ahead, a second pass at the same moment only waits.
pub proof fn lemma_restart_in_open_window(
    c: Config,
    p: Timestamp,
    now: Timestamp,
    off: int,
    r: Outcome,
)
    requires
        c.wf(),
        p@ <= now@,
        0 <= off,
        c.window.valid_at(now@),
        pass_result(c, Some(p), now, off, r),
    ensures
        match r {
            Outcome::Reschedule { fire, next } => fire && c.window.valid_at(next@) && now@ <= next@
                && forall|off2: int, r2: Outcome|
                now@ < next@ && #[trigger] pass_result(c, Some(next), now, off2, r2) ==> r2
                    == Outcome::Wait(next),
            Outcome::Failed { fire, error } => fire,
            _ => false,
        },
{
    lemma_latest(c.window, now@);
    lemma_elide_not_before(c.window, c.window.latest(now@) + off, MAX_ELISIONS as nat);
    lemma_elide_valid(c.window, c.window.latest(now@) + off, MAX_ELISIONS as nat);
}

/// After a restart with a due commitment while the window is closed, the
/// pass does not fire; where a new time can be chosen, exactly that one is
/// committed and it lies inside the window.
pub proof fn lemma_restart_in_closed_window(
    c: Config,
    p: Timestamp,
    now: Timestamp,
    off: int,
    r: Outcome,
)
    requires
        c.wf(),
        p@ <= now@,
        !c.window.valid_at(now@),
        pass_result(c, Some(p), now, off, r),
    ensures
        match r {
            Outcome::Reschedule { fire, next } => !fire && c.window.valid_at(next@),
            Outcome::Failed { fire, error } => !fire,
            _ => false,
        },
{
    lemma_elide_valid(c.window, c.window.latest(now@) + off, MAX_ELISIONS as nat);
}

/// A reload whose weekdays leave out today drops a commitment that is due,
/// or that the new window no longer holds, without firing; where a new time
/// can be chosen, it is committed and lies inside the new window.
pub proof fn lemma_reload_excluding_today(
    before: Reactor,
    after: Reactor,
    c: Config,
    p: Timestamp,
    now: Timestamp,
    off: int,
    r: Outcome,
)
    requires
        after.config == before.config_after(Event::Reloaded(c)),
        c.wf(),
        p@ <= now@ || !c.window.valid_at(p@),
        !c.window.allows_day(day_of(now@)),
        pass_result(after.config.unwrap(), Some(p), now, off, r),
    ensures
        match r {
            Outcome::Reschedule { fire, next } => !fire && c.window.valid_at(next@),
            Outcome::Failed { fire, error } => !fire,
            _ => false,
        },
{
    lemma_elide_valid(c.window, c.window.latest(now@) + off, MAX_ELISIONS as nat);
}

} // verus!
