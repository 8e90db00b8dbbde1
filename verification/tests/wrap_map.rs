use dzed::buffer::BufferSnapshot;
use dzed::point::{Point, WrapPoint};
use dzed::wrap_map::{WrapMap, WrapSnapshot};

fn snapshot(text: &str, wrap_width: Option<u32>) -> WrapSnapshot {
    let buffer = BufferSnapshot::from_text(text);
    WrapMap::new(buffer, wrap_width).snapshot()
}

#[test]
fn wraps_a_single_line_at_fixed_columns() {
    let snapshot = snapshot("abcdefgh", Some(3));

    assert_eq!(snapshot.row_count(), 3);
    assert_eq!(snapshot.max_point(), WrapPoint::new(2, 2));
    assert_eq!(snapshot.line_len(0), 3);
    assert_eq!(snapshot.line_len(1), 3);
    assert_eq!(snapshot.line_len(2), 2);
    assert_eq!(snapshot.to_wrap_point(Point::new(0, 3)), WrapPoint::new(1, 0));
    assert_eq!(snapshot.from_wrap_point(WrapPoint::new(1, 0)), Point::new(0, 3));
}

#[test]
fn preserves_physical_newlines_and_empty_lines() {
    let snapshot = snapshot("abcd\n\nxy", Some(3));

    assert_eq!(snapshot.row_count(), 4);
    assert_eq!(snapshot.max_point(), WrapPoint::new(3, 2));
    assert_eq!((0..4).map(|row| snapshot.line_len(row)).collect::<Vec<_>>(), vec![3, 1, 0, 2]);
    assert_eq!(snapshot.to_wrap_point(Point::new(1, 0)), WrapPoint::new(2, 0));
    assert_eq!(snapshot.from_wrap_point(WrapPoint::new(3, 0)), Point::new(2, 0));
}

#[test]
fn disabling_wrapping_is_isomorphic() {
    let snapshot = snapshot("abcd\nef", None);

    assert_eq!(snapshot.max_point(), WrapPoint::new(1, 2));
    assert_eq!(snapshot.row_count(), 2);
    for row in 0..snapshot.buffer_snapshot().row_count() {
        for column in 0..=snapshot.buffer_snapshot().line_len(row) {
            let point = Point::new(row, column);
            assert_eq!(snapshot.from_wrap_point(snapshot.to_wrap_point(point)), point);
        }
    }
}

#[test]
fn wrapped_points_round_trip() {
    let snapshot = snapshot("abcdefgh\n12345\n", Some(3));

    for row in 0..snapshot.buffer_snapshot().row_count() {
        for column in 0..=snapshot.buffer_snapshot().line_len(row) {
            let point = Point::new(row, column);
            assert_eq!(snapshot.from_wrap_point(snapshot.to_wrap_point(point)), point, "failed at {point:?}");
        }
    }
}

#[test]
fn clips_out_of_range_points() {
    let snapshot = snapshot("abcd", Some(3));

    assert_eq!(snapshot.to_wrap_point(Point::new(10, 10)), WrapPoint::new(1, 1));
    assert_eq!(snapshot.from_wrap_point(WrapPoint::new(10, 10)), Point::new(0, 4));
}

#[test]
fn changing_the_wrap_width_rewraps() {
    let mut map = WrapMap::new(BufferSnapshot::from_text("abcdefgh"), Some(3));
    assert_eq!(map.snapshot().row_count(), 3);
    map.set_wrap_width(Some(4));
    assert_eq!(map.snapshot().row_count(), 2);
    map.set_wrap_width(None);
    assert_eq!(map.snapshot().row_count(), 1);
    map.sync(BufferSnapshot::from_text("a\nb\nc"));
    assert_eq!(map.snapshot().row_count(), 3);
}

#[test]
fn a_width_of_zero_does_not_wrap() {
    let snapshot = snapshot("abc", Some(0));
    assert_eq!(snapshot.row_count(), 1);
    assert_eq!(snapshot.line_len(0), 3);
}

#[test]
fn carriage_returns_end_lines() {
    let buffer = BufferSnapshot::from_text("ab\r\ncd\re");
    assert_eq!(buffer.row_count(), 3);
    assert_eq!(buffer.line_len(0), 2);
    assert_eq!(buffer.line_len(2), 1);
    assert_eq!(buffer.max_point(), Point::new(2, 1));
    assert_eq!(buffer.clip_point(Point::new(0, 9)), Point::new(0, 2));
}
