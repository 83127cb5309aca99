use infopanel::csv_parse::CSVParser;
use infopanel::parse::ParseError;

#[test]
fn full_read_then_parse_flow() {
    let raw: Vec<u8> = b"header\r\n14.03.2024;14.03.2024;Thu;08:00;09:30;201;A;B;C;D;E;5\r\n"
        .to_vec();
    let mut parser = CSVParser::new("latin1");
    assert_eq!(parser.get_enc(), "latin1");
    parser.read_file(&raw).unwrap();
    parser.parse_contents().unwrap();
    let events = parser.get_events().unwrap();
    assert_eq!(events.len(), 1);
    assert_eq!(events[0].event_id, 5);
}

#[test]
fn parse_before_read_reports_no_content() {
    let mut parser = CSVParser::new("latin1");
    assert!(parser.get_events().is_none());
    assert_eq!(parser.parse_contents(), Err(ParseError::NoContent));
}

#[test]
fn invalid_encoding_label_rejected() {
    let mut parser = CSVParser::new("not-an-encoding");
    assert!(parser.read_file(&b"x".to_vec()).is_err());
    assert!(parser.get_events().is_none());
}

#[test]
fn bad_row_keeps_no_events() {
    let raw: Vec<u8> = b"header\r\ngood;row;is;not;checked;here;so;this;row;is;too;short\r\nbad"
        .to_vec();
    let mut parser = CSVParser::new("latin1");
    parser.read_file(&raw).unwrap();
    // The first data row has twelve fields but no valid dates: the whole
    // parse fails and no partial event list is produced.
    assert!(parser.parse_contents().is_err());
    assert!(parser.get_events().is_none());
}
