use dzed::actions::Mode;
use dzed::buffer::BufferSnapshot;
use dzed::colorscheme::Rgb;
use dzed::display_map::DisplayMap;
use dzed::document::TextRows;
use dzed::point::Point;
use dzed::render::{
    cell_colors, cursor_is_bar, gutter_labels, gutter_width, match_char_ranges, match_columns, row_cell_colors, wrap_width,
};
use dzed::selections::{Selection, SelectionCollection};

const BASE: (Rgb, Rgb) = (Rgb { r: 1, g: 1, b: 1 }, Rgb { r: 2, g: 2, b: 2 });
const FIND: (Rgb, Rgb) = (Rgb { r: 3, g: 3, b: 3 }, Rgb { r: 4, g: 4, b: 4 });
const SEL: Rgb = Rgb { r: 5, g: 5, b: 5 };

#[test]
fn cells_take_match_then_selection_colours() {
    assert_eq!(cell_colors(BASE, FIND, SEL, Mode::Normal, false, (false, false, false)), BASE);
    assert_eq!(cell_colors(BASE, FIND, SEL, Mode::Normal, true, (false, false, false)), FIND);
    assert_eq!(cell_colors(BASE, FIND, SEL, Mode::Normal, true, (true, true, false)), (FIND.0, SEL));
    // In command mode a selection does not show, but a cursor does.
    assert_eq!(cell_colors(BASE, FIND, SEL, Mode::Command, false, (true, true, false)), BASE);
    assert_eq!(cell_colors(BASE, FIND, SEL, Mode::Command, false, (false, false, true)), (BASE.0, SEL));
    // A selected row shows whole only in visual-line mode.
    assert_eq!(cell_colors(BASE, FIND, SEL, Mode::VisualLine, false, (false, true, false)), (BASE.0, SEL));
    assert_eq!(cell_colors(BASE, FIND, SEL, Mode::Visual, false, (false, true, false)), BASE);
}

#[test]
fn match_columns_cover_each_match_up_to_its_end() {
    let ranges = vec![(1, 3), (6, 7)];
    assert_eq!(match_columns(&ranges, 9), vec![false, true, true, false, false, false, true, false, false]);
    assert_eq!(match_columns(&Vec::new(), 2), vec![false, false]);
}

#[test]
fn byte_matches_become_character_columns() {
    // 'é' takes two bytes.
    let ranges = match_char_ranges("aébé", &vec![(3, 1), (1, 2)]);
    assert_eq!(ranges, vec![(2, 3), (1, 2)]);
}

#[test]
fn the_gutter_numbers_each_buffer_row_once() {
    let map = DisplayMap::new(BufferSnapshot::from_text("abcdefgh\nxy\nz"), Some(3));
    let snapshot = map.snapshot();
    assert_eq!(gutter_labels(&snapshot, 0, 5), vec![Some(1), None, None, Some(2), Some(3)]);
    assert_eq!(gutter_labels(&snapshot, 1, 3), vec![Some(1), None]);
}

#[test]
fn a_row_shows_its_selection_and_cursor() {
    let text = "hello\nworld";
    let map = DisplayMap::new(BufferSnapshot::from_text(text), None);
    let snapshot = map.snapshot();
    let rows = TextRows::from_text(text);
    let mut sels = SelectionCollection::new();
    sels.add(Point::new(0, 1));
    sels.selections[0] = Selection { id: 0, start: Point::new(0, 1), end: Point::new(0, 3), reversed: false };
    let base = vec![BASE; 5];
    let cells = row_cell_colors(&snapshot, 0, 5, &sels, &rows, &vec![(4, 5)], Mode::Visual, &base, FIND, SEL);
    assert_eq!(cells, vec![BASE, (BASE.0, SEL), (BASE.0, SEL), (BASE.0, SEL), FIND]);
}

#[test]
fn the_gutter_widens_with_each_digit() {
    assert_eq!(gutter_width(false, 500), 0);
    assert_eq!(gutter_width(true, 0), 2);
    assert_eq!(gutter_width(true, 9), 2);
    assert_eq!(gutter_width(true, 10), 3);
    assert_eq!(gutter_width(true, 999), 4);
    assert_eq!(gutter_width(true, u32::MAX), 11);
    for n in [1u32, 7, 10, 99, 100, 12345, 1_000_000] {
        assert_eq!(gutter_width(true, n), 2 + n.ilog10());
    }
}

#[test]
fn the_wrap_width_is_what_the_margins_leave() {
    assert_eq!(wrap_width(false, 80, 4, 0), None);
    assert_eq!(wrap_width(true, 80, 4, 1), Some(75));
    assert_eq!(wrap_width(true, 3, 4, 1), Some(1));
    assert!(cursor_is_bar(Mode::Insert));
    assert!(cursor_is_bar(Mode::Command));
    assert!(!cursor_is_bar(Mode::Visual));
}
