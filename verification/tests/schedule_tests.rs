use infopanel::datetime::{Date, DateTime, TimeOfDay};
use infopanel::schedule::RefreshSchedule;

fn tod(hour: u32, minute: u32) -> TimeOfDay {
    TimeOfDay { hour, minute }
}

fn at(year: u32, month: u32, day: u32, hour: u32, minute: u32) -> DateTime {
    DateTime { date: Date { year, month, day }, time: tod(hour, minute) }
}

#[test]
fn initial_anchor_is_tomorrow() {
    let s = RefreshSchedule::initial(Date { year: 2024, month: 1, day: 1 }, tod(9, 0));
    assert_eq!(s.next_fire_at, at(2024, 1, 2, 9, 0));
    assert_eq!(s.configured_time_of_day, tod(9, 0));
}

#[test]
fn initial_anchor_rolls_over_month_and_year() {
    let m = RefreshSchedule::initial(Date { year: 2024, month: 1, day: 31 }, tod(9, 0));
    assert_eq!(m.next_fire_at.date, Date { year: 2024, month: 2, day: 1 });
    let y = RefreshSchedule::initial(Date { year: 2024, month: 12, day: 31 }, tod(9, 0));
    assert_eq!(y.next_fire_at.date, Date { year: 2025, month: 1, day: 1 });
    let leap = RefreshSchedule::initial(Date { year: 2024, month: 2, day: 28 }, tod(9, 0));
    assert_eq!(leap.next_fire_at.date, Date { year: 2024, month: 2, day: 29 });
}

#[test]
fn reconfiguration_keeps_pending_date() {
    // Configured 09:00, pending slot 2024-01-02 09:00; the configuration
    // changes to 10:30 before that time arrives: the next tick moves the
    // slot to 2024-01-02 10:30, not a fresh 24 hours away.
    let mut s = RefreshSchedule {
        configured_time_of_day: tod(9, 0),
        next_fire_at: at(2024, 1, 2, 9, 0),
    };
    let fired = s.tick(at(2024, 1, 1, 12, 0), tod(10, 30));
    assert!(!fired);
    assert_eq!(s.next_fire_at, at(2024, 1, 2, 10, 30));
    assert_eq!(s.configured_time_of_day, tod(10, 30));
}

#[test]
fn tick_before_slot_does_not_fire() {
    let mut s = RefreshSchedule {
        configured_time_of_day: tod(9, 0),
        next_fire_at: at(2024, 1, 2, 9, 0),
    };
    let fired = s.tick(at(2024, 1, 2, 8, 59), tod(9, 0));
    assert!(!fired);
    assert_eq!(s.next_fire_at, at(2024, 1, 2, 9, 0));
}

#[test]
fn tick_at_slot_fires_and_advances_a_day() {
    let mut s = RefreshSchedule {
        configured_time_of_day: tod(9, 0),
        next_fire_at: at(2024, 1, 2, 9, 0),
    };
    let fired = s.tick(at(2024, 1, 2, 9, 0), tod(9, 0));
    assert!(fired);
    assert_eq!(s.next_fire_at, at(2024, 1, 3, 9, 0));
}

#[test]
fn tick_past_slot_fires_anchored_to_now() {
    // The loop was asleep past the slot; the next slot is tomorrow
    // relative to now, not relative to the missed slot.
    let mut s = RefreshSchedule {
        configured_time_of_day: tod(9, 0),
        next_fire_at: at(2024, 1, 2, 9, 0),
    };
    let fired = s.tick(at(2024, 1, 4, 7, 0), tod(9, 0));
    assert!(fired);
    assert_eq!(s.next_fire_at, at(2024, 1, 5, 9, 0));
}

#[test]
fn reconfiguration_can_trigger_immediate_fire() {
    // Moving the trigger earlier than now fires on the same tick.
    let mut s = RefreshSchedule {
        configured_time_of_day: tod(18, 0),
        next_fire_at: at(2024, 1, 2, 18, 0),
    };
    let fired = s.tick(at(2024, 1, 2, 12, 0), tod(11, 0));
    assert!(fired);
    assert_eq!(s.next_fire_at, at(2024, 1, 3, 11, 0));
}
