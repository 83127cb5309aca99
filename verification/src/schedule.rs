//! Daily refresh scheduler state: a configurable wall-clock trigger time and
//! the absolute timestamp of the next fire. The tick loop around it is
//! plain: every tick re-reads the configured time of day, adjusts the
//! pending slot on a live reconfiguration, and fires once the current time
//! has passed the slot.

use vstd::prelude::*;
use crate::datetime::{
    Date, TimeOfDay, DateTime, date_valid, time_valid, datetime_le, next_day, spec_datetime_le,
    spec_next_day,
};

verus! {

/// Process-wide scheduling state.
#[derive(Clone, Copy, PartialEq, Eq, Structural, Debug)]
pub struct RefreshSchedule {
    /// The daily trigger time seen at the last tick.
    pub configured_time_of_day: TimeOfDay,
    /// When the next refresh is due.
    pub next_fire_at: DateTime,
}

/// Tomorrow at the configured time: the daily slot that follows a day whose
/// date is `today`.
pub open spec fn next_daily_slot(today: Date, configured: TimeOfDay) -> DateTime {
    DateTime { date: spec_next_day(today), time: configured }
}

/// Where the pending slot stands after a tick reads the configuration: on a
/// live reconfiguration the already-scheduled date is kept and only the
/// time of day is swapped in; otherwise the slot is untouched.
pub open spec fn adjusted_fire_at(s: RefreshSchedule, configured: TimeOfDay) -> DateTime {
    if configured != s.configured_time_of_day {
        DateTime { date: s.next_fire_at.date, time: configured }
    } else {
        s.next_fire_at
    }
}

impl RefreshSchedule {
    pub open spec fn wf(self) -> bool {
        date_valid(self.next_fire_at.date) && time_valid(self.next_fire_at.time) && time_valid(
            self.configured_time_of_day,
        )
    }

    /// The state at process start: anchored to tomorrow at the configured
    /// time, never to later today, so startup cannot fire immediately.
    pub fn initial(today: Date, configured: TimeOfDay) -> (s: RefreshSchedule)
        requires
            date_valid(today),
            today.year < u32::MAX,
            time_valid(configured),
        ensures
            s.configured_time_of_day == configured,
            s.next_fire_at == next_daily_slot(today, configured),
            s.wf(),
    {
        let tomorrow = next_day(today);
        RefreshSchedule {
            configured_time_of_day: configured,
            next_fire_at: DateTime { date: tomorrow, time: configured },
        }
    }

    /// One tick of the fixed-cadence loop. Re-reads the configured time of
    /// day: if it changed, the pending slot keeps its date and takes the
    /// new time (no fresh 24-hour countdown). Fires exactly when `now` has
    /// reached the (possibly adjusted) slot, and then advances the slot to
    /// tomorrow at the configured time.
    pub fn tick(&mut self, now: DateTime, configured: TimeOfDay) -> (fire: bool)
        requires
            old(self).wf(),
            date_valid(now.date),
            now.date.year < u32::MAX,
            time_valid(configured),
        ensures
            final(self).wf(),
            fire == spec_datetime_le(adjusted_fire_at(*old(self), configured), now),
            final(self).configured_time_of_day == configured,
            final(self).next_fire_at == if fire {
                next_daily_slot(now.date, configured)
            } else {
                adjusted_fire_at(*old(self), configured)
            },
    {
        if configured.hour != self.configured_time_of_day.hour || configured.minute
            != self.configured_time_of_day.minute {
            self.next_fire_at = DateTime { date: self.next_fire_at.date, time: configured };
            self.configured_time_of_day = configured;
        }
        if datetime_le(self.next_fire_at, now) {
            let tomorrow = next_day(now.date);
            self.next_fire_at = DateTime { date: tomorrow, time: configured };
            true
        } else {
            false
        }
    }
}

} // verus!
