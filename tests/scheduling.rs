use chime_scheduler::record::{
    FIRST_CALENDAR_DAY, LAST_CALENDAR_DAY, LAST_FOUR_DIGIT_DAY, NANOS_PER_SEC,
};
use chime_scheduler::{
    format_record, now, parse_record, schedule_new_fire, schedule_with_offset, Config, Event,
    OffsetError, OffsetRange, Outcome, Reactor, ScheduleError, TimeWindow, Timestamp, WindowError,
    NANOS_PER_DAY,
};
use chrono::{Datelike, NaiveDate};

const HOUR: u64 = 3_600 * NANOS_PER_SEC;
const MINUTE: u64 = 60 * NANOS_PER_SEC;

fn day(y: i32, m: u32, d: u32) -> i64 {
    NaiveDate::from_ymd_opt(y, m, d).unwrap().num_days_from_ce() as i64
}

/// Friday 17 May 2024.
fn friday() -> i64 {
    day(2024, 5, 17)
}

fn stamp(d: i64, h: u64, m: u64, s: u64) -> Timestamp {
    Timestamp::new(d, h * HOUR + m * MINUTE + s * NANOS_PER_SEC).unwrap()
}

fn workweek() -> TimeWindow {
    TimeWindow::new(&vec![0, 1, 2, 3, 4], 8 * HOUR, 20 * HOUR).unwrap()
}

fn config(lower: u64, upper: u64) -> Config {
    Config::new(workweek(), OffsetRange::from_secs(lower, upper).unwrap())
}

#[test]
fn zero_offset_inside_window_keeps_now() {
    let w = workweek();
    let t = stamp(friday(), 19, 59, 59);
    assert_eq!(schedule_with_offset(&w, &t, 0), Ok(t));
    let offsets = OffsetRange::from_secs(0, 0).unwrap();
    assert_eq!(schedule_new_fire(&w, &offsets, &t), Ok(t));
}

#[test]
fn overshoot_is_carried_across_the_weekend() {
    let w = workweek();
    let t = stamp(friday(), 19, 59, 0);
    let expected = stamp(friday() + 3, 8, 1, 0);
    assert_eq!(schedule_with_offset(&w, &t, 120 * NANOS_PER_SEC), Ok(expected));
    let offsets = OffsetRange::from_secs(120, 120).unwrap();
    assert_eq!(schedule_new_fire(&w, &offsets, &t), Ok(expected));
}

#[test]
fn weekday_numbering_matches_the_calendar() {
    let monday_only = TimeWindow::new(&vec![0], 0, NANOS_PER_DAY - 1).unwrap();
    assert!(monday_only.is_valid(&stamp(day(2024, 5, 13), 12, 0, 0)));
    assert!(!monday_only.is_valid(&stamp(day(2024, 5, 14), 12, 0, 0)));
    let sunday_only = TimeWindow::new(&vec![6], 0, NANOS_PER_DAY - 1).unwrap();
    assert!(sunday_only.is_valid(&stamp(day(2024, 5, 19), 0, 0, 0)));
    assert!(sunday_only.is_valid(&stamp(day(1, 1, 7), 0, 0, 0)));
    assert!(sunday_only.is_valid(&stamp(day(-3, 2, 28), 0, 0, 0)) == (NaiveDate::from_ymd_opt(-3, 2, 28).unwrap().weekday() == chrono::Weekday::Sun));
}

#[test]
fn window_bounds_are_inclusive() {
    let w = workweek();
    assert!(w.is_valid(&stamp(friday(), 8, 0, 0)));
    assert!(w.is_valid(&stamp(friday(), 20, 0, 0)));
    assert!(!w.is_valid(&Timestamp::new(friday(), 20 * HOUR + 1).unwrap()));
    assert!(!w.is_valid(&Timestamp::new(friday(), 8 * HOUR - 1).unwrap()));
    assert!(!w.is_valid(&stamp(friday() + 1, 12, 0, 0)));
}

#[test]
fn snaps_over_a_weekend() {
    let w = workweek();
    let saturday = stamp(friday() + 1, 12, 0, 0);
    assert_eq!(w.latest_valid_at_or_before(&saturday), stamp(friday(), 20, 0, 0));
    assert_eq!(w.earliest_valid_at_or_after(&saturday), stamp(friday() + 3, 8, 0, 0));
}

#[test]
fn snaps_before_opening_and_after_closing() {
    let w = workweek();
    let early_monday = stamp(friday() + 3, 7, 0, 0);
    assert_eq!(w.latest_valid_at_or_before(&early_monday), stamp(friday(), 20, 0, 0));
    assert_eq!(w.earliest_valid_at_or_after(&early_monday), stamp(friday() + 3, 8, 0, 0));
    let late_tuesday = stamp(friday() + 4, 21, 0, 0);
    assert_eq!(w.latest_valid_at_or_before(&late_tuesday), stamp(friday() + 4, 20, 0, 0));
    assert_eq!(w.earliest_valid_at_or_after(&late_tuesday), stamp(friday() + 5, 8, 0, 0));
    let friday_night = stamp(friday(), 23, 0, 0);
    assert_eq!(w.earliest_valid_at_or_after(&friday_night), stamp(friday() + 3, 8, 0, 0));
}

#[test]
fn snaps_keep_valid_instants_and_are_idempotent() {
    let w = workweek();
    let noon = stamp(friday(), 12, 0, 0);
    assert_eq!(w.latest_valid_at_or_before(&noon), noon);
    assert_eq!(w.earliest_valid_at_or_after(&noon), noon);
    let sunday = stamp(friday() + 2, 3, 0, 0);
    let once = w.latest_valid_at_or_before(&sunday);
    assert!(w.is_valid(&once));
    assert!(once.at_or_before(&sunday));
    assert_eq!(w.latest_valid_at_or_before(&once), once);
    let after = w.earliest_valid_at_or_after(&sunday);
    assert!(w.is_valid(&after));
    assert!(sunday.at_or_before(&after));
}

#[test]
fn offset_from_a_closed_window_starts_at_the_last_close() {
    let w = workweek();
    let sunday = stamp(friday() + 2, 3, 0, 0);
    assert_eq!(
        schedule_with_offset(&w, &sunday, 30 * MINUTE),
        Ok(stamp(friday() + 3, 8, 30, 0))
    );
    assert_eq!(
        schedule_with_offset(&w, &stamp(friday(), 10, 0, 0), 90 * MINUTE),
        Ok(stamp(friday(), 11, 30, 0))
    );
}

#[test]
fn a_valid_candidate_is_kept_even_across_a_gap() {
    let w = workweek();
    let monday = stamp(friday() + 3, 8, 0, 0);
    assert_eq!(schedule_with_offset(&w, &monday, 30 * HOUR), Ok(stamp(friday() + 4, 14, 0, 0)));
    assert_eq!(schedule_with_offset(&w, &monday, 13 * HOUR), Ok(stamp(friday() + 4, 9, 0, 0)));
}

#[test]
fn long_overshoots_cross_several_gaps() {
    let w = TimeWindow::new(&vec![0, 1, 2, 3, 4], 8 * HOUR, 9 * HOUR).unwrap();
    let monday = stamp(friday() + 3, 8, 30, 0);
    assert_eq!(schedule_with_offset(&w, &monday, HOUR), Ok(stamp(friday() + 4, 8, 30, 0)));
    assert_eq!(
        schedule_with_offset(&w, &monday, 2 * HOUR + 30 * MINUTE),
        Ok(stamp(friday() + 5, 9, 0, 0))
    );
}

#[test]
fn random_fire_times_stay_in_range_and_window() {
    let w = workweek();
    let offsets = OffsetRange::from_secs(60, 7_200).unwrap();
    let t = stamp(friday(), 12, 0, 0);
    for _ in 0..50 {
        let r = schedule_new_fire(&w, &offsets, &t).unwrap();
        assert!(w.is_valid(&r));
        let gap = t.nanos_until(&r);
        assert!(gap >= 60 * NANOS_PER_SEC && gap <= 7_200 * NANOS_PER_SEC);
    }
}

#[test]
fn an_instant_window_cannot_absorb_an_offset() {
    let w = TimeWindow::new(&vec![2], 9 * HOUR, 9 * HOUR).unwrap();
    let t = stamp(friday(), 12, 0, 0);
    assert_eq!(schedule_with_offset(&w, &t, HOUR), Err(ScheduleError::NoValidTime));
    let r = schedule_with_offset(&w, &t, 0).unwrap();
    assert_eq!(r, stamp(friday() - 2, 9, 0, 0));
}

#[test]
fn window_errors() {
    assert_eq!(TimeWindow::new(&vec![0, 7], 0, 1).unwrap_err(), WindowError::BadWeekday);
    assert_eq!(TimeWindow::new(&vec![], 0, 1).unwrap_err(), WindowError::NoWeekdays);
    assert_eq!(
        TimeWindow::new(&vec![1], 0, NANOS_PER_DAY).unwrap_err(),
        WindowError::TimeOutOfRange
    );
    assert_eq!(TimeWindow::new(&vec![1], 5, 4).unwrap_err(), WindowError::StartAfterEnd);
    let w = TimeWindow::new(&vec![3, 3, 1], 4, 5).unwrap();
    assert_eq!(w.weekdays, [false, true, false, true, false, false, false]);
}

#[test]
fn offset_errors() {
    assert_eq!(OffsetRange::from_secs(5, 4), Err(OffsetError::Reversed));
    assert_eq!(OffsetRange::from_secs(0, u64::MAX), Err(OffsetError::TooLarge));
    assert_eq!(
        OffsetRange::from_secs(2, 3),
        Ok(OffsetRange { lower: 2 * NANOS_PER_SEC, upper: 3 * NANOS_PER_SEC })
    );
}

#[test]
fn timestamp_parts_and_distances() {
    assert_eq!(Timestamp::new(0, NANOS_PER_DAY), None);
    assert_eq!(Timestamp::new(i64::MAX, 0), None);
    let a = stamp(friday(), 23, 59, 0);
    let b = stamp(friday() + 1, 0, 1, 0);
    assert_eq!(a.nanos_until(&b), 2 * MINUTE);
    assert_eq!(b.nanos_until(&a), 0);
    assert!(a.at_or_before(&b) && !b.at_or_before(&a) && a.at_or_before(&a));
}

#[test]
fn records_round_trip() {
    let t = Timestamp::new(friday(), 19 * HOUR + 59 * MINUTE + 59 * NANOS_PER_SEC + 123_456_789).unwrap();
    let text = format_record(&t).unwrap();
    assert_eq!(text, "2024-05-17T19:59:59.123456789\n");
    assert_eq!(parse_record(&text), Some(t));
}

#[test]
fn records_parse_and_reject() {
    assert_eq!(parse_record("2024-05-17T08:01:00.5"), Some(Timestamp::new(friday(), 8 * HOUR + MINUTE + NANOS_PER_SEC / 2).unwrap()));
    assert_eq!(parse_record("not a time"), None);
    assert_eq!(parse_record(""), None);
    assert_eq!(Timestamp::from_clock(1, 86_400, 0), None);
    assert_eq!(Timestamp::from_clock(1, 59, 1_500_000_000), Timestamp::new(1, 60 * NANOS_PER_SEC - 1));
}

#[test]
fn the_clock_reads_a_sane_time() {
    let t = now();
    assert!(t.nanos < NANOS_PER_DAY);
    assert!(t.day > day(2000, 1, 1));
}

#[test]
fn unconfigured_loop_does_nothing() {
    let mut r = Reactor::new();
    let t = stamp(friday(), 12, 0, 0);
    assert_eq!(r.handle(Event::CountdownElapsed, None, &t), Outcome::Unconfigured);
    assert_eq!(r.handle(Event::ReloadFailed, Some(t), &t), Outcome::Unconfigured);
}

#[test]
fn restart_with_due_commitment_in_open_window_fires_once() {
    let mut r = Reactor::new();
    let t = stamp(friday(), 12, 0, 0);
    let due = stamp(friday(), 11, 0, 0);
    let out = r.handle_with_offset(Event::Reloaded(config(60, 60)), Some(due), &t, MINUTE);
    let next = stamp(friday(), 12, 1, 0);
    assert_eq!(out, Outcome::Reschedule { fire: true, next });
    assert_eq!(r.evaluate(Some(next), &t), Outcome::Wait(next));
}

#[test]
fn restart_with_due_commitment_in_closed_window_does_not_fire() {
    let mut r = Reactor::new();
    let t = stamp(friday() + 1, 12, 0, 0);
    let due = stamp(friday(), 19, 0, 0);
    let out = r.handle_with_offset(Event::Reloaded(config(60, 60)), Some(due), &t, MINUTE);
    assert_eq!(out, Outcome::Reschedule { fire: false, next: stamp(friday() + 3, 8, 1, 0) });
}

#[test]
fn reload_excluding_today_drops_a_due_commitment() {
    let mut r = Reactor::new();
    let t = stamp(friday(), 12, 0, 0);
    let due = stamp(friday(), 11, 0, 0);
    let pending = stamp(friday(), 13, 0, 0);
    assert_eq!(
        r.handle_with_offset(Event::Reloaded(config(60, 60)), Some(pending), &t, MINUTE),
        Outcome::Wait(pending)
    );
    let monday_to_thursday = Config::new(
        TimeWindow::new(&vec![0, 1, 2, 3], 8 * HOUR, 20 * HOUR).unwrap(),
        OffsetRange::from_secs(60, 60).unwrap(),
    );
    let out = r.handle(Event::Reloaded(monday_to_thursday), Some(due), &t);
    assert_eq!(out, Outcome::Reschedule { fire: false, next: stamp(friday() + 3, 8, 1, 0) });
}

#[test]
fn missing_commitment_schedules_without_firing() {
    let mut r = Reactor::new();
    let t = stamp(friday(), 12, 0, 0);
    r.apply(Event::Reloaded(config(60, 60)));
    r.apply(Event::ReloadFailed);
    assert_eq!(
        r.evaluate_with_offset(None, &t, MINUTE),
        Outcome::Reschedule { fire: false, next: stamp(friday(), 12, 1, 0) }
    );
    assert_eq!(
        r.handle(Event::CountdownElapsed, None, &t),
        Outcome::Reschedule { fire: false, next: stamp(friday(), 12, 1, 0) }
    );
}

#[test]
fn commitment_due_exactly_now_is_due() {
    let mut r = Reactor::new();
    let t = stamp(friday(), 12, 0, 0);
    let out = r.handle_with_offset(Event::Reloaded(config(0, 0)), Some(t), &t, 0);
    assert_eq!(out, Outcome::Reschedule { fire: true, next: t });
}

#[test]
fn degenerate_configuration_fails_the_pass() {
    let mut r = Reactor::new();
    let c = Config::new(
        TimeWindow::new(&vec![4], 9 * HOUR, 9 * HOUR).unwrap(),
        OffsetRange::from_secs(10, 10).unwrap(),
    );
    let t = stamp(friday(), 12, 0, 0);
    assert_eq!(
        r.handle(Event::Reloaded(c), None, &t),
        Outcome::Failed { fire: false, error: ScheduleError::NoValidTime }
    );
}

#[test]
fn a_due_fire_in_an_open_window_fires_even_when_scheduling_fails() {
    let mut r = Reactor::new();
    let c = Config::new(
        TimeWindow::new(&vec![4], 9 * HOUR, 9 * HOUR).unwrap(),
        OffsetRange::from_secs(10, 10).unwrap(),
    );
    let t = stamp(friday(), 9, 0, 0);
    let due = stamp(friday(), 8, 0, 0);
    assert_eq!(
        r.handle(Event::Reloaded(c), Some(due), &t),
        Outcome::Failed { fire: true, error: ScheduleError::NoValidTime }
    );
}

#[test]
fn reload_excluding_today_replaces_a_pending_commitment() {
    let mut r = Reactor::new();
    let t = stamp(friday(), 12, 0, 0);
    let pending = stamp(friday(), 13, 0, 0);
    assert_eq!(
        r.handle_with_offset(Event::Reloaded(config(60, 60)), Some(pending), &t, MINUTE),
        Outcome::Wait(pending)
    );
    let monday_to_thursday = Config::new(
        TimeWindow::new(&vec![0, 1, 2, 3], 8 * HOUR, 20 * HOUR).unwrap(),
        OffsetRange::from_secs(60, 60).unwrap(),
    );
    let out = r.handle(Event::Reloaded(monday_to_thursday), Some(pending), &t);
    assert_eq!(out, Outcome::Reschedule { fire: false, next: stamp(friday() + 3, 8, 1, 0) });
    let monday = stamp(friday() + 3, 9, 0, 0);
    assert_eq!(r.handle(Event::CountdownElapsed, Some(monday), &t), Outcome::Wait(monday));
}

#[test]
fn records_cover_the_calendar() {
    assert_eq!(format_record(&Timestamp::new(1, 0).unwrap()).unwrap(), "0001-01-01T00:00:00.000000000\n");
    let first_day = Timestamp::new(1, NANOS_PER_DAY - 1).unwrap();
    assert_eq!(parse_record(&format_record(&first_day).unwrap()), Some(first_day));
    assert!(format_record(&Timestamp::new(FIRST_CALENDAR_DAY, 0).unwrap()).is_some());
    assert!(format_record(&Timestamp::new(LAST_CALENDAR_DAY, 0).unwrap()).is_some());
    assert_eq!(format_record(&Timestamp::new(LAST_CALENDAR_DAY + 1, 0).unwrap()), None);
    assert_eq!(format_record(&Timestamp::new(FIRST_CALENDAR_DAY - 1, 0).unwrap()), None);
    let last = Timestamp::new(LAST_FOUR_DIGIT_DAY, 12 * HOUR).unwrap();
    assert_eq!(format_record(&last).unwrap(), "9999-12-31T12:00:00.000000000\n");
    assert_eq!(parse_record(&format_record(&last).unwrap()), Some(last));
}
