use infopanel::datetime::{Date, DateTime, TimeOfDay};
use infopanel::parse::{parse, parse_date, parse_row, parse_time, ParseError};

fn chars(s: &str) -> Vec<char> {
    s.chars().collect()
}

const HEADER: &str = "from;to;day;start;end;room;class;subject;teacher;dep;building;id";

fn file_with_rows(rows: &[&str]) -> Vec<char> {
    let mut text = String::from(HEADER);
    for row in rows {
        text.push_str("\r\n");
        text.push_str(row);
    }
    chars(&text)
}

#[test]
fn well_formed_row_yields_one_event() {
    let text = file_with_rows(&[
        "\"14.03.2024\";\"14.03.2024\";\"Thu\";\"08:00\";\"09:30\";\"201\";\"MPA22\";\"Math\";\"J. Doe\";\"SJS\";\"Building A\";\"555\"",
    ]);
    let events = parse(&text).unwrap();
    assert_eq!(events.len(), 1);
    let e = &events[0];
    assert_eq!(e.event_id, 555);
    assert_eq!(
        e.from_datetime,
        DateTime {
            date: Date { year: 2024, month: 3, day: 14 },
            time: TimeOfDay { hour: 8, minute: 0 },
        }
    );
    assert_eq!(
        e.to_datetime,
        DateTime {
            date: Date { year: 2024, month: 3, day: 14 },
            time: TimeOfDay { hour: 9, minute: 30 },
        }
    );
    assert_eq!(e.room, "201");
    assert_eq!(e.class_name, "MPA22");
    assert_eq!(e.subject, "Math");
    assert_eq!(e.teacher, "J. Doe");
    assert_eq!(e.department, "SJS");
    assert_eq!(e.building, "Building A");
    assert!(e.visible);
    assert_eq!(e.modified_at, None);
    assert_eq!(e.modified_by, None);
}

#[test]
fn header_is_always_skipped() {
    // The header alone parses to no events, even though it has twelve
    // fields of its own.
    let text = file_with_rows(&[]);
    let events = parse(&text).unwrap();
    assert!(events.is_empty());
}

#[test]
fn blank_and_short_lines_tolerated() {
    let text = file_with_rows(&[
        "",
        "14.03.2024;14.03.2024;Thu;08:00;09:30;201;MPA22;Math;J. Doe;SJS;Building A;555",
        "x",
        "",
    ]);
    let events = parse(&text).unwrap();
    assert_eq!(events.len(), 1);
}

#[test]
fn too_few_fields_fails_whole_parse() {
    let text = file_with_rows(&[
        "14.03.2024;14.03.2024;Thu;08:00;09:30;201;MPA22;Math;J. Doe;SJS;Building A;555",
        "14.03.2024;14.03.2024;Thu;08:00;09:30;201;MPA22;Math;J. Doe;SJS;555",
    ]);
    match parse(&text) {
        Err(ParseError::BadRow { line_number, .. }) => assert_eq!(line_number, 2),
        other => panic!("expected a bad-row failure, got {:?}", other),
    }
}

#[test]
fn bad_date_fails_whole_parse() {
    let text = file_with_rows(&[
        "31.04.2024;31.04.2024;Thu;08:00;09:30;201;MPA22;Math;J. Doe;SJS;Building A;555",
    ]);
    assert!(parse(&text).is_err());
}

#[test]
fn bad_time_fails_whole_parse() {
    let text = file_with_rows(&[
        "14.03.2024;14.03.2024;Thu;24:00;09:30;201;MPA22;Math;J. Doe;SJS;Building A;555",
    ]);
    assert!(parse(&text).is_err());
}

#[test]
fn non_numeric_id_fails_whole_parse() {
    let text = file_with_rows(&[
        "14.03.2024;14.03.2024;Thu;08:00;09:30;201;MPA22;Math;J. Doe;SJS;Building A;abc",
    ]);
    assert!(parse(&text).is_err());
}

#[test]
fn failure_reports_first_offending_line() {
    let text = file_with_rows(&[
        "14.03.2024;14.03.2024;Thu;08:00;09:30;201;A;B;C;D;E;1",
        "bad row here",
        "also;bad",
    ]);
    match parse(&text) {
        Err(ParseError::BadRow { line_number, line }) => {
            assert_eq!(line_number, 2);
            assert_eq!(line, "bad row here");
        }
        other => panic!("expected a bad-row failure, got {:?}", other),
    }
}

#[test]
fn extra_fields_are_ignored() {
    let text = file_with_rows(&[
        "14.03.2024;14.03.2024;Thu;08:00;09:30;201;A;B;C;D;E;1;extra;fields",
    ]);
    let events = parse(&text).unwrap();
    assert_eq!(events.len(), 1);
    assert_eq!(events[0].event_id, 1);
}

#[test]
fn rows_keep_source_order() {
    let text = file_with_rows(&[
        "14.03.2024;14.03.2024;Thu;08:00;09:30;201;A;B;C;D;E;2",
        "15.03.2024;15.03.2024;Fri;10:00;11:00;202;A;B;C;D;E;1",
    ]);
    let events = parse(&text).unwrap();
    assert_eq!(events[0].event_id, 2);
    assert_eq!(events[1].event_id, 1);
}

#[test]
fn parse_date_accepts_single_digit_day_and_month() {
    let d = parse_date(&chars("4.3.2024")).unwrap();
    assert_eq!(d, Date { year: 2024, month: 3, day: 4 });
}

#[test]
fn parse_date_leap_year() {
    assert!(parse_date(&chars("29.02.2024")).is_some());
    assert!(parse_date(&chars("29.02.2023")).is_none());
    assert!(parse_date(&chars("29.02.2000")).is_some());
    assert!(parse_date(&chars("29.02.1900")).is_none());
}

#[test]
fn parse_date_rejects_malformed() {
    assert!(parse_date(&chars("14.03.24")).is_none());
    assert!(parse_date(&chars("14-03-2024")).is_none());
    assert!(parse_date(&chars("0.03.2024")).is_none());
    assert!(parse_date(&chars("14.13.2024")).is_none());
    assert!(parse_date(&chars("")).is_none());
    assert!(parse_date(&chars("14.03.2024.5")).is_none());
}

#[test]
fn parse_time_bounds() {
    assert_eq!(
        parse_time(&chars("23:59")),
        Some(TimeOfDay { hour: 23, minute: 59 })
    );
    assert_eq!(parse_time(&chars("0:0")), Some(TimeOfDay { hour: 0, minute: 0 }));
    assert!(parse_time(&chars("24:00")).is_none());
    assert!(parse_time(&chars("12:60")).is_none());
    assert!(parse_time(&chars("12")).is_none());
    assert!(parse_time(&chars("12:00:00")).is_none());
}

#[test]
fn parse_row_strips_quotes_before_splitting() {
    let row = chars("\"14.03.2024\";14.03.2024;Thu;8:0\"0\";09:30;2\"0\"1;A;B;C;D;E;10");
    let e = parse_row(&row).unwrap();
    assert_eq!(e.room, "201");
    assert_eq!(e.from_datetime.time, TimeOfDay { hour: 8, minute: 0 });
}

#[test]
fn row_ending_before_it_starts_fails() {
    // Reversed dates, and reversed times on the same day, both break the
    // event invariant and abort the whole parse.
    let by_date = file_with_rows(&[
        "02.01.2001;01.01.2001;w;09:00;08:00;r;c;s;t;d;b;7",
    ]);
    assert!(parse(&by_date).is_err());
    let by_time = file_with_rows(&[
        "14.03.2024;14.03.2024;Thu;09:30;08:00;201;A;B;C;D;E;5",
    ]);
    assert!(parse(&by_time).is_err());
}

#[test]
fn row_with_equal_start_and_end_passes() {
    let text = file_with_rows(&[
        "14.03.2024;14.03.2024;Thu;08:00;08:00;201;A;B;C;D;E;5",
    ]);
    let events = parse(&text).unwrap();
    assert_eq!(events.len(), 1);
}

#[test]
fn empty_display_field_fails() {
    let empty_room = file_with_rows(&[
        "14.03.2024;14.03.2024;Thu;08:00;09:30;;A;B;C;D;E;5",
    ]);
    assert!(parse(&empty_room).is_err());
    let empty_teacher = file_with_rows(&[
        "14.03.2024;14.03.2024;Thu;08:00;09:30;201;A;B;\"\";D;E;5",
    ]);
    assert!(parse(&empty_teacher).is_err());
}

#[test]
fn event_id_at_u64_limits() {
    let ok = format!(
        "14.03.2024;14.03.2024;Thu;08:00;09:30;201;A;B;C;D;E;{}",
        u64::MAX
    );
    let e = parse_row(&chars(&ok)).unwrap();
    assert_eq!(e.event_id, u64::MAX);
    let over = "14.03.2024;14.03.2024;Thu;08:00;09:30;201;A;B;C;D;E;18446744073709551616";
    assert!(parse_row(&chars(over)).is_none());
}
