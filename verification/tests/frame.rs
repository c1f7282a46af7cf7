use asciicut::cast::{Event, EventCode};
use asciicut::dto::{frame_dto, ColorDto};
use asciicut::frame::{clamp_u16, parse_resize, replay_frame, Color};

fn ev(code: EventCode, data: &str) -> Event {
    Event { code, data: data.to_string() }
}

#[test]
fn blank_grid_when_nothing_replayed() {
    let events = vec![ev(EventCode::Output, "hello")];
    let frame = replay_frame(10, 3, &events, 0);
    assert_eq!((frame.width(), frame.height()), (10, 3));
    assert_eq!(frame.text().len(), 3);
    for row in frame.text() {
        assert_eq!(row, "          ");
    }
}

#[test]
fn replayed_output_is_padded_to_width() {
    let events = vec![ev(EventCode::Output, "hello")];
    let frame = replay_frame(10, 2, &events, 1);
    assert_eq!(frame.text()[0], "hello     ");
    assert_eq!(frame.text()[1], "          ");
    let c = frame.cursor();
    assert_eq!((c.col, c.row, c.visible), (5, 0, true));
}

#[test]
fn scrolled_history_leaves_the_visible_tail() {
    let events: Vec<Event> =
        ["L1\r\n", "L2\r\n", "L3\r\n", "L4\r\n", "L5\r\n"].iter().map(|d| ev(EventCode::Output, d)).collect();
    let frame = replay_frame(10, 3, &events, 5);
    assert_eq!(frame.text(), &["L4        ", "L5        ", "          "]);
}

#[test]
fn wrapped_rows_agree_with_cells() {
    let events = vec![ev(EventCode::Output, "abcdefg")];
    let frame = replay_frame(5, 3, &events, 1);
    assert_eq!(frame.text()[0], "abcde");
    assert_eq!(frame.text()[1], "fg   ");
    for (row, cells) in frame.text().iter().zip(frame.cells()) {
        let from_cells: String = cells.iter().map(|c| c.ch).collect();
        assert_eq!(&from_cells, row);
    }
}

#[test]
fn resizes_change_dims_and_bad_payloads_are_ignored() {
    let events = vec![
        ev(EventCode::Output, "x"),
        ev(EventCode::Resize, "20x6"),
        ev(EventCode::Resize, "0x0"),
        ev(EventCode::Resize, "not-a-size"),
        ev(EventCode::Resize, "99999999x1"),
    ];
    let before = replay_frame(10, 4, &events, 1);
    assert_eq!((before.width(), before.height()), (10, 4));
    let after = replay_frame(10, 4, &events, 5);
    assert_eq!((after.width(), after.height()), (20, 6));
    assert!(after.text().iter().all(|r| r.chars().count() == 20));
}

#[test]
fn zero_header_dims_become_one() {
    let frame = replay_frame(0, 0, &vec![ev(EventCode::Output, "hi")], 1);
    assert_eq!((frame.width(), frame.height()), (1, 1));
    assert_eq!(frame.text().len(), 1);
}

#[test]
fn latest_marker_wins_and_is_never_drawn() {
    let events = vec![
        ev(EventCode::Marker, "first"),
        ev(EventCode::Output, "line"),
        ev(EventCode::Marker, "second"),
        ev(EventCode::Other("i".to_string()), "typed"),
    ];
    assert_eq!(replay_frame(10, 2, &events, 0).marker(), None);
    assert_eq!(replay_frame(10, 2, &events, 1).marker(), Some("first"));
    let frame = replay_frame(10, 2, &events, 4);
    assert_eq!(frame.marker(), Some("second"));
    assert_eq!(frame.text()[0], "line      ");
}

#[test]
fn sgr_style_is_captured_in_cells_and_dto() {
    let events = vec![ev(EventCode::Output, "\u{1b}[1;31mA")];
    let frame = replay_frame(4, 1, &events, 1);
    let cell = frame.cells()[0][0];
    assert_eq!(cell.ch, 'A');
    assert!(cell.style.bold);
    assert_eq!(cell.style.foreground, Some(Color::Indexed(1)));
    let dto = frame_dto(&frame);
    assert_eq!(dto.cells[0][0].style.foreground, Some(ColorDto::Indexed { index: 1 }));
    assert_eq!(dto.text, frame.text().to_vec());
    assert_eq!(dto.width, 4);
}

#[test]
fn wide_characters_occupy_two_columns() {
    let frame = replay_frame(4, 1, &vec![ev(EventCode::Output, "漢a")], 1);
    assert_eq!(frame.text()[0], "漢a ");
    assert_eq!(frame.cells()[0][0].width, 2);
    assert_eq!(frame.cells()[0].len(), 3);
}

#[test]
fn replay_is_deterministic() {
    let events = vec![ev(EventCode::Output, "deterministic"), ev(EventCode::Resize, "14x4")];
    assert_eq!(replay_frame(12, 3, &events, 2), replay_frame(12, 3, &events, 2));
}

#[test]
fn resize_payloads_parse_like_u16_pairs() {
    assert_eq!(parse_resize("90x30"), Some((90, 30)));
    assert_eq!(parse_resize(" 90 x 30 "), Some((90, 30)));
    assert_eq!(parse_resize("+9x3"), Some((9, 3)));
    assert_eq!(parse_resize("0x5"), None);
    assert_eq!(parse_resize("65536x5"), None);
    assert_eq!(parse_resize("5x"), None);
    assert_eq!(parse_resize("5"), None);
    assert_eq!(clamp_u16(70000), u16::MAX);
    assert_eq!(clamp_u16(7), 7);
}

#[test]
fn frame_depends_only_on_replayed_events() {
    let a = vec![ev(EventCode::Output, "same"), ev(EventCode::Output, "-a")];
    let b = vec![ev(EventCode::Output, "same"), ev(EventCode::Marker, "m")];
    assert_eq!(replay_frame(8, 2, &a, 1), replay_frame(8, 2, &b, 1));
    let f = replay_frame(8, 2, &a, 2);
    for row in f.text() {
        assert_eq!(row.chars().count(), 8);
    }
}

#[test]
fn narrowing_to_one_column_is_skipped() {
    let events = vec![ev(EventCode::Output, "漢"), ev(EventCode::Resize, "1x1")];
    let frame = replay_frame(2, 1, &events, 2);
    assert_eq!((frame.width(), frame.height()), (2, 1));
    assert_eq!(frame.text()[0], "漢");
    let one = replay_frame(1, 1, &vec![ev(EventCode::Resize, "1x3")], 1);
    assert_eq!((one.width(), one.height()), (1, 3));
    let wide = replay_frame(1, 1, &vec![ev(EventCode::Resize, "4x2")], 1);
    assert_eq!((wide.width(), wide.height()), (4, 2));
}
