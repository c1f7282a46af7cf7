use std::collections::BTreeMap;

use asciicut::cast::{
    compose_header, decimal_string, resolve_header, split_document, EventCode, Header, ParseError,
    RawHeader, TermFields, VersionField,
};

#[test]
fn display_messages_are_informative() {
    assert!(ParseError::EmptyInput.to_string().contains("empty input"));
    assert!(ParseError::MissingDimensions
        .to_string()
        .contains("dimensions"));
    assert!(ParseError::UnsupportedVersion("1".to_owned())
        .to_string()
        .contains("expected 2 or 3"));
}

#[test]
fn malformed_event_message_carries_line_number() {
    let e = ParseError::MalformedEvent { line: 3, message: "expected value".to_string() };
    assert_eq!(e.to_string(), "malformed event on line 3: expected value");
    assert_eq!(decimal_string(0), "0");
    assert_eq!(decimal_string(1700000000), "1700000000");
}

#[test]
fn event_codes_map_and_round_trip() {
    assert_eq!(EventCode::from_raw("o"), EventCode::Output);
    assert_eq!(EventCode::from_raw("r"), EventCode::Resize);
    assert_eq!(EventCode::from_raw("m"), EventCode::Marker);
    assert_eq!(EventCode::from_raw("i"), EventCode::Other("i".to_owned()));
    for raw in ["o", "r", "m", "i", "", "oo"] {
        assert_eq!(EventCode::from_raw(raw).as_raw(), raw);
    }
}

fn raw(version: Option<(Option<u64>, &str)>) -> RawHeader {
    RawHeader {
        version: version.map(|(number, text)| VersionField { number, text: text.to_string() }),
        width: None,
        height: None,
        theme: None,
        timestamp: None,
        env: None,
        term: None,
    }
}

#[test]
fn header_rejects_unknown_and_missing_versions() {
    let mut r = raw(Some((Some(1), "1")));
    r.width = Some(80);
    r.height = Some(24);
    assert_eq!(
        resolve_header(r).err(),
        Some(ParseError::UnsupportedVersion("1".to_owned()))
    );
    assert_eq!(
        resolve_header(raw(None)).err(),
        Some(ParseError::UnsupportedVersion("<missing>".to_owned()))
    );
    assert_eq!(
        resolve_header(raw(Some((None, "\"2\"")))).err(),
        Some(ParseError::UnsupportedVersion("\"2\"".to_owned()))
    );
}

#[test]
fn header_dimensions_fall_back_to_term() {
    assert_eq!(resolve_header(raw(Some((Some(2), "2")))).err(), Some(ParseError::MissingDimensions));
    let mut r = raw(Some((Some(3), "3")));
    r.term = Some(TermFields { cols: Some(100), rows: Some(30), theme: None });
    let h: Header = resolve_header(r).ok().unwrap();
    assert_eq!((h.version, h.width, h.height), (3, 100, 30));

    let mut r = raw(Some((Some(3), "3")));
    r.term = Some(TermFields { cols: None, rows: None, theme: None });
    assert_eq!(resolve_header(r).err(), Some(ParseError::MissingDimensions));
}

#[test]
fn header_keeps_top_level_fields() {
    let mut env = BTreeMap::new();
    env.insert("SHELL".to_string(), "/bin/zsh".to_string());
    let mut r = raw(Some((Some(2), "2")));
    r.width = Some(80);
    r.height = Some(24);
    r.timestamp = Some(1700000000);
    r.env = Some(env);
    r.term = Some(TermFields { cols: Some(1), rows: Some(1), theme: None });
    let h = resolve_header(r).ok().unwrap();
    assert_eq!((h.width, h.height), (80, 24));
    assert_eq!(h.timestamp, Some(1700000000));
    assert_eq!(h.env.unwrap()["SHELL"], "/bin/zsh");
}

#[test]
fn composed_header_takes_output_geometry_and_version_two() {
    let mut r = raw(Some((Some(3), "3")));
    r.width = Some(80);
    r.height = Some(24);
    let h = compose_header(resolve_header(r).ok().unwrap(), Some(120), None);
    assert_eq!((h.version, h.width, h.height), (2, 120, 24));
}

#[test]
fn split_document_reports_empty_input() {
    assert_eq!(split_document("").err(), Some(ParseError::EmptyInput));
    assert_eq!(split_document("   \n  \n").err(), Some(ParseError::EmptyInput));
}

#[test]
fn split_document_numbers_event_lines_and_skips_comments() {
    let doc = "{\"version\": 3}\r\n# a comment\n[0.5, \"o\", \"a\"]\n\n  [0.5, \"o\", \"b\"]  \n";
    let layout = split_document(doc).ok().unwrap();
    assert_eq!(layout.header, "{\"version\": 3}");
    let events: Vec<(usize, String)> =
        layout.events.iter().map(|e| (e.line, e.text.clone())).collect();
    assert_eq!(
        events,
        vec![(3, "[0.5, \"o\", \"a\"]".to_string()), (5, "[0.5, \"o\", \"b\"]".to_string())]
    );
}

#[test]
fn blank_lines_before_the_header_are_skipped() {
    let layout = split_document("\n{\"version\": 2}\n").ok().unwrap();
    assert_eq!(layout.header, "{\"version\": 2}");
    assert!(layout.events.is_empty());
    let doc = "\n\n{\"version\": 2, \"width\": 80, \"height\": 24}\n[0.5, \"o\", \"a\"]\n";
    let layout = split_document(doc).ok().unwrap();
    assert_eq!(layout.events.len(), 1);
    assert_eq!(layout.events[0].line, 4);
    assert_eq!(layout.events[0].text, "[0.5, \"o\", \"a\"]");
}
