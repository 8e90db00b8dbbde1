use dzed::buffer::BufferSnapshot;
use dzed::fold_map::{Fold, FoldMap};
use dzed::point::Point;

fn fold(r0: u32, c0: u32, r1: u32, c1: u32) -> Fold {
    Fold { start: Point::new(r0, c0), end: Point::new(r1, c1) }
}

#[test]
fn a_fold_becomes_a_placeholder() {
    let buffer = BufferSnapshot::from_text("line 1\nline 2\nline 3\nline 4");
    let map = FoldMap::new(&buffer, vec![fold(1, 0, 2, 6)]);
    let folded = map.folded_buffer();
    assert_eq!(folded.row_count(), 3);
    assert_eq!(folded.line_len(0), 6);
    assert_eq!(folded.line_len(1), 4);
    assert_eq!(folded.line_len(2), 6);

    assert_eq!(map.to_folded_point(Point::new(3, 2)), Point::new(2, 2));
    assert_eq!(map.from_folded_point(Point::new(2, 2)), Point::new(3, 2));
    assert_eq!(map.to_folded_point(Point::new(1, 3)), Point::new(1, 0));
    assert_eq!(map.from_folded_point(Point::new(1, 2)), Point::new(1, 0));
    assert_eq!(map.to_folded_point(Point::new(0, 4)), Point::new(0, 4));
}

#[test]
fn points_outside_folds_round_trip() {
    let text = "fn main() {\n    let x = 1;\n    let y = 2;\n}";
    let buffer = BufferSnapshot::from_text(text);
    let map = FoldMap::new(&buffer, vec![fold(0, 11, 3, 0)]);
    for row in 0..buffer.row_count() {
        for column in 0..=buffer.line_len(row) {
            let p = Point::new(row, column);
            let inside = Point::new(0, 11) <= p && p <= Point::new(3, 0);
            if !inside {
                assert_eq!(map.from_folded_point(map.to_folded_point(p)), p, "{p:?}");
            }
        }
    }
    assert_eq!(map.folded_buffer().row_count(), 1);
    assert_eq!(map.folded_buffer().line_len(0), 16);
}

#[test]
fn nested_and_empty_folds_are_dropped() {
    let buffer = BufferSnapshot::from_text("a\nb\nc\nd\ne");
    let map = FoldMap::new(&buffer, vec![fold(2, 0, 3, 1), fold(0, 1, 4, 0), fold(1, 0, 1, 0)]);
    assert_eq!(map.folded_buffer().row_count(), 1);
    assert_eq!(map.folded_buffer().line_len(0), 6);
    assert_eq!(map.to_folded_point(Point::new(4, 1)), Point::new(0, 6));
}

#[test]
fn no_folds_map_points_to_themselves() {
    let buffer = BufferSnapshot::from_text("abc\nde");
    let map = FoldMap::new(&buffer, Vec::new());
    assert_eq!(map.to_folded_point(Point::new(1, 1)), Point::new(1, 1));
    assert_eq!(map.from_folded_point(Point::new(0, 3)), Point::new(0, 3));
    assert_eq!(map.folded_buffer().row_count(), 2);
}
