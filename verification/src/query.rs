//! Read-side filters over the event set: equality filters over any subset
//! of the display fields and visibility, and inclusive time-range bounds.

use vstd::prelude::*;
use crate::datetime::{DateTime, spec_datetime_le, datetime_le};
use crate::event::{Event, EventModel, models};

verus! {

/// An equality filter: each present field must match exactly.
#[derive(Debug)]
pub struct EventQuery {
    pub department: Option<String>,
    pub class_name: Option<String>,
    pub subject: Option<String>,
    pub teacher: Option<String>,
    pub room: Option<String>,
    pub building: Option<String>,
    pub visible: Option<bool>,
}

/// The mathematical model of an `EventQuery`.
pub struct EventQueryModel {
    pub department: Option<Seq<char>>,
    pub class_name: Option<Seq<char>>,
    pub subject: Option<Seq<char>>,
    pub teacher: Option<Seq<char>>,
    pub room: Option<Seq<char>>,
    pub building: Option<Seq<char>>,
    pub visible: Option<bool>,
}

pub open spec fn opt_string_view(o: Option<String>) -> Option<Seq<char>> {
    match o {
        Some(s) => Some(s@),
        None => None,
    }
}

impl View for EventQuery {
    type V = EventQueryModel;

    open spec fn view(&self) -> EventQueryModel {
        EventQueryModel {
            department: opt_string_view(self.department),
            class_name: opt_string_view(self.class_name),
            subject: opt_string_view(self.subject),
            teacher: opt_string_view(self.teacher),
            room: opt_string_view(self.room),
            building: opt_string_view(self.building),
            visible: self.visible,
        }
    }
}

/// An inclusive time-range filter: events starting at or after
/// `from_datetime`, ending at or before `to_datetime`.
#[derive(Debug, Clone, Copy, PartialEq, Eq, Structural)]
pub struct TimeQuery {
    pub from_datetime: Option<DateTime>,
    pub to_datetime: Option<DateTime>,
}

/// Whether the record satisfies every present equality criterion.
pub open spec fn matches_query(e: EventModel, q: EventQueryModel) -> bool {
    &&& (q.department matches Some(v) ==> e.department == v)
    &&& (q.class_name matches Some(v) ==> e.class_name == v)
    &&& (q.subject matches Some(v) ==> e.subject == v)
    &&& (q.teacher matches Some(v) ==> e.teacher == v)
    &&& (q.room matches Some(v) ==> e.room == v)
    &&& (q.building matches Some(v) ==> e.building == v)
    &&& (q.visible matches Some(v) ==> e.visible == v)
}

/// Whether the record lies within the present time bounds.
pub open spec fn matches_time(e: EventModel, q: TimeQuery) -> bool {
    &&& (q.from_datetime matches Some(f) ==> spec_datetime_le(f, e.from_datetime))
    &&& (q.to_datetime matches Some(t) ==> spec_datetime_le(e.to_datetime, t))
}

/// The records of `s` that satisfy the equality filter, in order.
pub open spec fn filter_matching(s: Seq<EventModel>, q: EventQueryModel) -> Seq<EventModel>
    decreases s.len(),
{
    if s.len() == 0 {
        Seq::empty()
    } else if matches_query(s.last(), q) {
        filter_matching(s.drop_last(), q).push(s.last())
    } else {
        filter_matching(s.drop_last(), q)
    }
}

/// The records of `s` within the time bounds, in order.
pub open spec fn filter_in_range(s: Seq<EventModel>, q: TimeQuery) -> Seq<EventModel>
    decreases s.len(),
{
    if s.len() == 0 {
        Seq::empty()
    } else if matches_time(s.last(), q) {
        filter_in_range(s.drop_last(), q).push(s.last())
    } else {
        filter_in_range(s.drop_last(), q)
    }
}

fn opt_string_matches(field: &String, criterion: &Option<String>) -> (r: bool)
    ensures
        r == (opt_string_view(*criterion) matches Some(v) ==> field@ == v),
{
    match criterion {
        Some(v) => field.eq(v),
        None => true,
    }
}

/// Whether the event satisfies every present equality criterion.
pub fn event_matches(e: &Event, q: &EventQuery) -> (r: bool)
    ensures
        r == matches_query(e@, q@),
{
    let department_ok = opt_string_matches(&e.department, &q.department);
    let class_name_ok = opt_string_matches(&e.class_name, &q.class_name);
    let subject_ok = opt_string_matches(&e.subject, &q.subject);
    let teacher_ok = opt_string_matches(&e.teacher, &q.teacher);
    let room_ok = opt_string_matches(&e.room, &q.room);
    let building_ok = opt_string_matches(&e.building, &q.building);
    let visible_ok = match q.visible {
        Some(v) => e.visible == v,
        None => true,
    };
    department_ok && class_name_ok && subject_ok && teacher_ok && room_ok && building_ok
        && visible_ok
}

/// Keeps exactly the events matching every present equality criterion, in
/// their given order.
pub fn filter_events(events: &Vec<Event>, query: &EventQuery) -> (r: Vec<Event>)
    ensures
        models(r@) == filter_matching(models(events@), query@),
{
    let ghost ms = models(events@);
    let mut r: Vec<Event> = Vec::new();
    let mut i: usize = 0;
    proof {
        assert(models(r@) =~= Seq::<EventModel>::empty());
        assert(ms.take(0) =~= Seq::<EventModel>::empty());
    }
    while i < events.len()
        invariant
            i <= events@.len(),
            ms == models(events@),
            models(r@) == filter_matching(ms.take(i as int), query@),
        decreases events@.len() - i,
    {
        proof {
            assert(ms.take(i + 1).drop_last() =~= ms.take(i as int));
            assert(ms.take(i + 1).last() == ms[i as int]);
            assert(ms[i as int] == events@[i as int]@);
        }
        let e = &events[i];
        if event_matches(e, query) {
            proof {
                assert(models(r@.push(events@[i as int])) =~= models(r@).push(
                    events@[i as int]@,
                ));
            }
            r.push(e.clone());
        }
        i = i + 1;
    }
    assert(ms.take(ms.len() as int) =~= ms);
    r
}

/// Whether the event lies within the present time bounds.
pub fn event_in_range(e: &Event, q: &TimeQuery) -> (r: bool)
    ensures
        r == matches_time(e@, *q),
{
    let from_ok = match q.from_datetime {
        Some(f) => datetime_le(f, e.from_datetime),
        None => true,
    };
    let to_ok = match q.to_datetime {
        Some(t) => datetime_le(e.to_datetime, t),
        None => true,
    };
    from_ok && to_ok
}

/// Keeps exactly the events within the present inclusive time bounds, in
/// their given order.
pub fn filter_events_by_time(events: &Vec<Event>, query: &TimeQuery) -> (r: Vec<Event>)
    ensures
        models(r@) == filter_in_range(models(events@), *query),
{
    let ghost ms = models(events@);
    let mut r: Vec<Event> = Vec::new();
    let mut i: usize = 0;
    proof {
        assert(models(r@) =~= Seq::<EventModel>::empty());
        assert(ms.take(0) =~= Seq::<EventModel>::empty());
    }
    while i < events.len()
        invariant
            i <= events@.len(),
            ms == models(events@),
            models(r@) == filter_in_range(ms.take(i as int), *query),
        decreases events@.len() - i,
    {
        proof {
            assert(ms.take(i + 1).drop_last() =~= ms.take(i as int));
            assert(ms.take(i + 1).last() == ms[i as int]);
            assert(ms[i as int] == events@[i as int]@);
        }
        let e = &events[i];
        if event_in_range(e, query) {
            proof {
                assert(models(r@.push(events@[i as int])) =~= models(r@).push(
                    events@[i as int]@,
                ));
            }
            r.push(e.clone());
        }
        i = i + 1;
    }
    assert(ms.take(ms.len() as int) =~= ms);
    r
}

/// What an event endpoint can fail with.
#[derive(Debug, Clone, Copy, PartialEq, Eq, Structural)]
pub enum EventError {
    EventNotFound,
    EventUpdateFailure,
    EventCreationFailure,
    EventDBError,
}

impl EventError {
    /// The status code of this failure: not-found is 404, an update or
    /// creation failure is a failed dependency (424), and a store failure
    /// is an internal error (500).
    pub open spec fn spec_status_code(self) -> u16 {
        match self {
            EventError::EventNotFound => 404,
            EventError::EventUpdateFailure => 424,
            EventError::EventCreationFailure => 424,
            EventError::EventDBError => 500,
        }
    }

    pub fn status_code(&self) -> (c: u16)
        ensures
            c == self.spec_status_code(),
    {
        match self {
            EventError::EventNotFound => 404,
            EventError::EventUpdateFailure => 424,
            EventError::EventCreationFailure => 424,
            EventError::EventDBError => 500,
        }
    }
}

} // verus!
