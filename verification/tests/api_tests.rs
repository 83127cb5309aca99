use infopanel::auth::{bearer_token, find_jwk_by_kid, parse_token, wrap_certificate, Jwk};
use infopanel::ctx::Ctx;
use infopanel::datetime::{Date, DateTime, TimeOfDay};
use infopanel::error::{ClientError, Error};
use infopanel::event::Event;
use infopanel::query::{filter_events, filter_events_by_time, EventError, EventQuery, TimeQuery};

fn dt(day: u32, hour: u32) -> DateTime {
    DateTime {
        date: Date { year: 2024, month: 3, day },
        time: TimeOfDay { hour, minute: 0 },
    }
}

fn ev(id: u64, department: &str, room: &str, visible: bool, day: u32) -> Event {
    Event {
        event_id: id,
        from_datetime: dt(day, 8),
        to_datetime: dt(day, 10),
        department: department.to_string(),
        class_name: "MPA22".to_string(),
        subject: "Math".to_string(),
        teacher: "J. Doe".to_string(),
        room: room.to_string(),
        building: "Building A".to_string(),
        modified_at: None,
        modified_by: None,
        visible,
    }
}

fn empty_query() -> EventQuery {
    EventQuery {
        department: None,
        class_name: None,
        subject: None,
        teacher: None,
        room: None,
        building: None,
        visible: None,
    }
}

#[test]
fn filter_by_department_and_visibility() {
    let events = vec![
        ev(1, "SJS", "201", true, 1),
        ev(2, "JME", "201", true, 2),
        ev(3, "SJS", "202", false, 3),
    ];
    let mut q = empty_query();
    q.department = Some("SJS".to_string());
    let by_dep = filter_events(&events, &q);
    assert_eq!(by_dep.len(), 2);
    q.visible = Some(true);
    let visible_sjs = filter_events(&events, &q);
    assert_eq!(visible_sjs.len(), 1);
    assert_eq!(visible_sjs[0].event_id, 1);
}

#[test]
fn empty_filter_keeps_everything() {
    let events = vec![ev(1, "SJS", "201", true, 1), ev(2, "JME", "202", false, 2)];
    let all = filter_events(&events, &empty_query());
    assert_eq!(all.len(), 2);
}

#[test]
fn time_range_bounds_are_inclusive() {
    let events = vec![ev(1, "SJS", "201", true, 1), ev(2, "SJS", "201", true, 5)];
    let q = TimeQuery { from_datetime: Some(dt(5, 8)), to_datetime: None };
    let late = filter_events_by_time(&events, &q);
    assert_eq!(late.len(), 1);
    assert_eq!(late[0].event_id, 2);
    let q2 = TimeQuery { from_datetime: Some(dt(1, 8)), to_datetime: Some(dt(1, 10)) };
    let first_only = filter_events_by_time(&events, &q2);
    assert_eq!(first_only.len(), 1);
    assert_eq!(first_only[0].event_id, 1);
}

#[test]
fn client_status_codes() {
    assert_eq!(
        Error::LoginFail.client_status_and_error(),
        (403, ClientError::LOGIN_FAIL)
    );
    assert_eq!(
        Error::AuthFailTokenWrongFormat.client_status_and_error(),
        (403, ClientError::NO_AUTH)
    );
    assert_eq!(
        Error::TicketDeleteFailIdNotFound { id: 7 }.client_status_and_error(),
        (400, ClientError::INVALID_PARAMS)
    );
    assert_eq!(
        Error::DataBaseError.client_status_and_error(),
        (500, ClientError::SERVICE_ERROR)
    );
}

#[test]
fn event_error_status_codes() {
    assert_eq!(EventError::EventNotFound.status_code(), 404);
    assert_eq!(EventError::EventUpdateFailure.status_code(), 424);
    assert_eq!(EventError::EventCreationFailure.status_code(), 424);
    assert_eq!(EventError::EventDBError.status_code(), 500);
}

#[test]
fn ctx_carries_user_id() {
    let ctx = Ctx::new("42".to_string());
    assert_eq!(ctx.user_id(), "42");
}

#[test]
fn parse_token_well_formed() {
    let (user, exp, sign) = parse_token("user-42.2030-01-01.sig".to_string()).unwrap();
    assert_eq!(user, "42");
    assert_eq!(exp, "2030-01-01");
    assert_eq!(sign, "sig");
}

#[test]
fn parse_token_drops_leading_zeroes() {
    let (user, _, _) = parse_token("user-007.e.s".to_string()).unwrap();
    assert_eq!(user, "7");
}

#[test]
fn parse_token_expiration_may_hold_dots() {
    let (user, exp, sign) = parse_token("user-1.a.b.c".to_string()).unwrap();
    assert_eq!(user, "1");
    assert_eq!(exp, "a.b");
    assert_eq!(sign, "c");
}

#[test]
fn parse_token_rejects_malformed() {
    assert_eq!(
        parse_token("nonsense".to_string()),
        Err(Error::AuthFailTokenWrongFormat)
    );
    assert!(parse_token("user-x.a.b".to_string()).is_err());
    assert!(parse_token("user-1.ab".to_string()).is_err());
    assert!(parse_token("user-1..b".to_string()).is_err());
    assert!(parse_token("user-1.a.".to_string()).is_err());
    assert!(parse_token("user-.a.b".to_string()).is_err());
    assert!(parse_token("user-99999999999999999999.a.b".to_string()).is_err());
}

#[test]
fn parse_token_is_line_bound() {
    // A newline cannot sit inside the expiration or signature; what
    // follows one is not part of the token.
    assert!(parse_token("user-1.x\ny.z".to_string()).is_err());
    let (user, exp, sign) = parse_token("user-1.a.b\nc.d".to_string()).unwrap();
    assert_eq!((user.as_str(), exp.as_str(), sign.as_str()), ("1", "a", "b"));
    let (_, exp2, sign2) = parse_token("user-1.a.bc\n".to_string()).unwrap();
    assert_eq!((exp2.as_str(), sign2.as_str()), ("a", "bc"));
}

#[test]
fn bearer_token_follows_first_space() {
    assert_eq!(
        bearer_token("Bearer abc.def.ghi"),
        Some("abc.def.ghi".to_string())
    );
    assert_eq!(bearer_token("Basic a b"), Some("a b".to_string()));
    assert_eq!(bearer_token("NoSpaceHere"), None);
}

fn jwk(kid: &str) -> Jwk {
    Jwk {
        kty: "RSA".to_string(),
        use_field: "sig".to_string(),
        kid: kid.to_string(),
        x5t: "t".to_string(),
        n: "n".to_string(),
        e: "AQAB".to_string(),
        x5c: vec!["cert".to_string()],
    }
}

#[test]
fn key_selection_matches_kid() {
    let keys = vec![jwk("one"), jwk("two")];
    assert_eq!(find_jwk_by_kid(&keys, "two").unwrap().kid, "two");
    assert!(find_jwk_by_kid(&keys, "three").is_none());
}

#[test]
fn certificate_is_framed_in_pem_armor() {
    let pem = wrap_certificate("MIIBbase64body");
    assert_eq!(
        pem,
        "-----BEGIN CERTIFICATE-----\nMIIBbase64body\n-----END CERTIFICATE-----\n"
    );
}
