//! Scheduling of a recurring event at a random moment inside a weekly
//! time-of-day window, with a persisted next-fire record.
pub mod timestamp;
pub mod window;
pub mod schedule;
pub mod record;
pub mod reactor;

pub use timestamp::{Timestamp, NANOS_PER_DAY};
pub use window::{TimeWindow, WindowError};
pub use schedule::{schedule_new_fire, schedule_with_offset, OffsetError, OffsetRange, ScheduleError};
pub use record::{format_record, now, parse_record};
pub use reactor::{Config, Event, Outcome, Reactor};
