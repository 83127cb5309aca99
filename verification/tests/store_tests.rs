use infopanel::datetime::{Date, DateTime, TimeOfDay};
use infopanel::event::Event;
use infopanel::store::{room_record_id, Store};

fn dt(day: u32, hour: u32) -> DateTime {
    DateTime {
        date: Date { year: 2024, month: 3, day },
        time: TimeOfDay { hour, minute: 0 },
    }
}

fn ev(id: u64, day: u32, hour: u32) -> Event {
    Event {
        event_id: id,
        from_datetime: dt(day, hour),
        to_datetime: dt(day, hour + 1),
        department: "SJS".to_string(),
        class_name: "MPA22".to_string(),
        subject: "Math".to_string(),
        teacher: "J. Doe".to_string(),
        room: "201".to_string(),
        building: "Building A".to_string(),
        modified_at: None,
        modified_by: None,
        visible: true,
    }
}

#[test]
fn create_then_get() {
    let mut store = Store::new();
    let created = store.create_event(ev(7, 1, 8));
    assert_eq!(created.unwrap().event_id, 7);
    let found = store.get_event(7).unwrap();
    assert_eq!(found.event_id, 7);
    assert!(store.get_event(8).is_none());
}

#[test]
fn create_existing_id_is_skipped() {
    let mut store = Store::new();
    store.create_event(ev(7, 1, 8));
    let second = store.create_event(ev(7, 2, 9));
    assert!(second.is_none());
    assert_eq!(store.count_events(), 1);
    // The original record is untouched.
    assert_eq!(store.get_event(7).unwrap().from_datetime, dt(1, 8));
}

#[test]
fn db_interactions_create_new_event() {
    // Creating a fresh record returns it; afterwards the id resolves.
    let mut store = Store::new();
    let d = Date { year: 2023, month: 11, day: 14 };
    let from_datetime = DateTime { date: d, time: TimeOfDay { hour: 10, minute: 15 } };
    let to_datetime = DateTime { date: d, time: TimeOfDay { hour: 11, minute: 15 } };
    let new_event = Event {
        event_id: 10239745,
        from_datetime,
        to_datetime,
        room: "201".to_string(),
        subject: "Test".to_string(),
        teacher: "Test".to_string(),
        visible: true,
        building: "Lagerstrasse 102".to_string(),
        department: "SJS".to_string(),
        class_name: "MP MPA 2208 B 02".to_string(),
        modified_at: None,
        modified_by: None,
    };
    let created_event = store.create_event(new_event.clone());
    match created_event {
        Some(e) => assert_eq!(e, new_event),
        None => {
            assert!(store.get_event(new_event.event_id).is_some())
        }
    }
}

#[test]
fn purge_returns_everything() {
    let mut store = Store::new();
    store.create_event(ev(1, 1, 8));
    store.create_event(ev(2, 2, 9));
    let removed = store.purge_events();
    assert_eq!(removed.len(), 2);
    assert_eq!(store.count_events(), 0);
}

#[test]
fn delete_removes_only_that_id() {
    let mut store = Store::new();
    store.create_event(ev(1, 1, 8));
    store.create_event(ev(2, 2, 9));
    let removed = store.delete_event(1).unwrap();
    assert_eq!(removed.event_id, 1);
    assert_eq!(store.count_events(), 1);
    assert!(store.delete_event(1).is_none());
    assert!(store.get_event(2).is_some());
}

#[test]
fn get_all_events_sorted_by_start() {
    let mut store = Store::new();
    store.create_event(ev(3, 20, 8));
    store.create_event(ev(1, 5, 14));
    store.create_event(ev(2, 5, 9));
    let all = store.get_all_events();
    assert_eq!(all.len(), 3);
    assert_eq!(all[0].event_id, 2);
    assert_eq!(all[1].event_id, 1);
    assert_eq!(all[2].event_id, 3);
}

#[test]
fn room_record_id_extracts_second_segment() {
    assert_eq!(room_record_id("rooms:d4my4knnu9z506tivir8"), "d4my4knnu9z506tivir8");
    assert_eq!(room_record_id("no-colon"), "");
    assert_eq!(room_record_id("a:b:c"), "b");
    assert_eq!(room_record_id(""), "");
}
