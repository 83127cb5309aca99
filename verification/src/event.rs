//! The `Event` record: one scheduled occurrence, as imported from the source
//! file or created through the API. Its mathematical model replaces each
//! string field by its character sequence.

use vstd::prelude::*;
use crate::datetime::{DateTime, spec_datetime_le};

verus! {

/// One scheduled occurrence.
#[derive(Debug, PartialEq)]
pub struct Event {
    pub event_id: u64,
    pub from_datetime: DateTime,
    pub to_datetime: DateTime,
    pub department: String,
    pub class_name: String,
    pub subject: String,
    pub teacher: String,
    pub room: String,
    pub building: String,
    pub modified_at: Option<DateTime>,
    pub modified_by: Option<String>,
    pub visible: bool,
}

/// The mathematical model of an `Event`: the same fields with every string
/// replaced by its character sequence.
pub struct EventModel {
    pub event_id: u64,
    pub from_datetime: DateTime,
    pub to_datetime: DateTime,
    pub department: Seq<char>,
    pub class_name: Seq<char>,
    pub subject: Seq<char>,
    pub teacher: Seq<char>,
    pub room: Seq<char>,
    pub building: Seq<char>,
    pub modified_at: Option<DateTime>,
    pub modified_by: Option<Seq<char>>,
    pub visible: bool,
}

impl View for Event {
    type V = EventModel;

    open spec fn view(&self) -> EventModel {
        EventModel {
            event_id: self.event_id,
            from_datetime: self.from_datetime,
            to_datetime: self.to_datetime,
            department: self.department@,
            class_name: self.class_name@,
            subject: self.subject@,
            teacher: self.teacher@,
            room: self.room@,
            building: self.building@,
            modified_at: self.modified_at,
            modified_by: match self.modified_by {
                Some(s) => Some(s@),
                None => None,
            },
            visible: self.visible,
        }
    }
}

impl Clone for Event {
    fn clone(&self) -> (r: Event)
        ensures
            r@ == self@,
    {
        Event {
            event_id: self.event_id,
            from_datetime: self.from_datetime,
            to_datetime: self.to_datetime,
            department: self.department.clone(),
            class_name: self.class_name.clone(),
            subject: self.subject.clone(),
            teacher: self.teacher.clone(),
            room: self.room.clone(),
            building: self.building.clone(),
            modified_at: self.modified_at,
            modified_by: match &self.modified_by {
                Some(s) => Some(s.clone()),
                None => None,
            },
            visible: self.visible,
        }
    }
}

/// The invariant every event record carries: it ends no earlier than it
/// starts, and all six display strings are non-empty.
pub open spec fn event_record_invariant(e: EventModel) -> bool {
    &&& spec_datetime_le(e.from_datetime, e.to_datetime)
    &&& e.department.len() > 0
    &&& e.class_name.len() > 0
    &&& e.subject.len() > 0
    &&& e.teacher.len() > 0
    &&& e.room.len() > 0
    &&& e.building.len() > 0
}

/// The models of a sequence of events, in the same order.
pub open spec fn models(s: Seq<Event>) -> Seq<EventModel> {
    s.map_values(|e: Event| e@)
}

} // verus!
