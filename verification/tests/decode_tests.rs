use infopanel::decode::{decode, normalize_text, DecodeError};

fn chars(s: &str) -> Vec<char> {
    s.chars().collect()
}

fn string_of(v: &[char]) -> String {
    v.iter().collect()
}

#[test]
fn embedded_crlf_inside_quotes_removed() {
    let input = chars("\"Room\r\n201\";next");
    let out = normalize_text(&input);
    assert_eq!(string_of(&out), "\"Room201\";next");
}

#[test]
fn crlf_outside_quotes_preserved() {
    let input = chars("a;b\r\nc;d");
    let out = normalize_text(&input);
    assert_eq!(string_of(&out), "a;b\r\nc;d");
}

#[test]
fn mixed_quoted_and_unquoted_breaks() {
    // The same CRLF pair appears once inside a quoted field and once
    // outside; only the embedded one goes away.
    let input = chars("\"x\r\ny\"\r\nz");
    let out = normalize_text(&input);
    assert_eq!(string_of(&out), "\"xy\"\r\nz");
}

#[test]
fn quotes_themselves_are_preserved() {
    let input = chars("\"a\";\"b\"");
    let out = normalize_text(&input);
    assert_eq!(string_of(&out), "\"a\";\"b\"");
}

#[test]
fn lone_cr_and_lf_inside_quotes_removed() {
    let input = chars("\"a\rb\nc\"");
    let out = normalize_text(&input);
    assert_eq!(string_of(&out), "\"abc\"");
}

#[test]
fn decode_latin1_ascii_roundtrip() {
    let raw: Vec<u8> = b"header\r\nrow".to_vec();
    let out = decode(&raw, "latin1").unwrap();
    assert_eq!(string_of(&out), "header\r\nrow");
}

#[test]
fn decode_latin1_high_byte() {
    // 0xE9 is e-acute in the windows-1252 encoding that the latin1 label
    // resolves to.
    let raw: Vec<u8> = vec![0x63, 0x61, 0x66, 0xE9];
    let out = decode(&raw, "latin1").unwrap();
    assert_eq!(string_of(&out), "caf\u{e9}");
}

#[test]
fn decode_normalizes_embedded_breaks() {
    let raw: Vec<u8> = b"\"a\r\nb\";c\r\nd".to_vec();
    let out = decode(&raw, "latin1").unwrap();
    assert_eq!(string_of(&out), "\"ab\";c\r\nd");
}

#[test]
fn decode_unknown_label_fails() {
    let raw: Vec<u8> = b"abc".to_vec();
    let err = decode(&raw, "no-such-encoding").unwrap_err();
    assert_eq!(err, DecodeError::UnknownEncoding);
}

#[test]
fn decode_utf8_label() {
    let raw: Vec<u8> = "grüezi".as_bytes().to_vec();
    let out = decode(&raw, "utf-8").unwrap();
    assert_eq!(string_of(&out), "grüezi");
}
