use asciicut::activity::{
    accumulate_activity, apply_grid_diff_weight, is_cursor_affecting_csi, score_payload,
};
use asciicut::cast::{Event, EventCode};

fn ev(code: EventCode, data: &str) -> Event {
    Event { code, data: data.to_string() }
}

#[test]
fn grid_diff_stub_is_inert() {
    assert_eq!(apply_grid_diff_weight(0), 0);
    assert_eq!(apply_grid_diff_weight(7), 7);
    assert_eq!(
        apply_grid_diff_weight(u64::from(u32::MAX)),
        u64::from(u32::MAX)
    );
}

#[test]
fn grid_diff_weight_is_the_identity_for_every_score() {
    for x in [(1u64 << 53) + 1, (1u64 << 60) + 12345, u64::MAX, u64::MAX - 1024, 1u64 << 63] {
        assert_eq!(apply_grid_diff_weight(x), x, "score {x}");
    }
}

#[test]
fn empty_stream_yields_empty_waveform_buckets() {
    let signal = accumulate_activity(&Vec::new(), &Vec::new(), 1);
    assert_eq!(signal, vec![0]);
}

#[test]
fn single_output_counts_its_bytes() {
    let events = vec![ev(EventCode::Output, "hello")];
    assert_eq!(accumulate_activity(&events, &vec![0], 1), vec![5]);
}

#[test]
fn events_land_in_their_slots() {
    // Times 0.0, 0.30 and 0.80 at 0.25 s buckets fall in slots 0, 1 and 3.
    let events = vec![
        ev(EventCode::Output, "aa"),
        ev(EventCode::Output, "bbb"),
        ev(EventCode::Output, "c"),
    ];
    assert_eq!(accumulate_activity(&events, &vec![0, 1, 3], 4), vec![2, 3, 0, 1]);
}

#[test]
fn pure_styling_escapes_score_near_zero() {
    let payload = "\u{1b}[38;5;42m\u{1b}[0m\u{1b}]8;;https://example.com\u{7}\u{1b}]8;;\u{7}";
    let events = vec![ev(EventCode::Output, payload)];
    assert_eq!(accumulate_activity(&events, &vec![0], 1), vec![0]);
}

#[test]
fn mixed_printable_and_escapes_counts_only_visible_bytes() {
    let payload = "hi\u{1b}[31mX\u{1b}[0m\n";
    let events = vec![ev(EventCode::Output, payload)];
    assert_eq!(accumulate_activity(&events, &vec![0], 1), vec![4]);
}

#[test]
fn cursor_movement_csi_counts_but_sgr_does_not() {
    let payload = "\u{1b}[2;5H\u{1b}[K\u{1b}[0m";
    assert_eq!(score_payload(payload.as_bytes()), 2);
}

#[test]
fn resize_and_marker_events_contribute_nothing() {
    let events = vec![
        ev(EventCode::Resize, "80x24"),
        ev(EventCode::Marker, "chapter one"),
        ev(EventCode::Other("i".to_owned()), "keystrokes"),
    ];
    assert_eq!(accumulate_activity(&events, &vec![0, 0, 0], 1), vec![0]);
}

#[test]
fn slot_past_the_end_clamps_to_last_bucket() {
    // duration 0.5 at 0.25 s gives two buckets; the event at 0.5 floors to slot 2.
    let events = vec![ev(EventCode::Output, "a"), ev(EventCode::Output, "bb")];
    assert_eq!(accumulate_activity(&events, &vec![0, 2], 2), vec![1, 2]);
}

#[test]
fn scanner_edge_cases() {
    assert_eq!(score_payload(b"\x1b"), 0);
    assert_eq!(score_payload(b"ab\x1b[12"), 2);
    // Only the two bytes ESC and `(` are skipped; `B` and `x` both count.
    assert_eq!(score_payload(b"\x1b(Bx"), 2);
    assert_eq!(score_payload(b"\x1b]0;title\x1b\\ok"), 2);
    assert_eq!(score_payload(b"\x08\t\r\n\x07\x7f"), 4);
    assert_eq!(score_payload("é".as_bytes()), 2);
    assert!(is_cursor_affecting_csi(b'H'));
    assert!(!is_cursor_affecting_csi(b'm'));
}

#[test]
fn plain_prefix_scores_add_up() {
    let a: &[u8] = b"ab\n\x07\t";
    let b: &[u8] = b"\x1b[2Jx\x1b[31m";
    let joined = [a, b].concat();
    assert_eq!(score_payload(a), 4);
    assert_eq!(score_payload(&joined), score_payload(a) + score_payload(b));
}
