use dzed::actions::{Action, Mode};
use dzed::document::{BufferText, Document, TextRows};
use dzed::fold_map::Fold;
use dzed::point::Point;
use dzed::selections::{Selection, SelectionCollection};

fn cursor(id: usize, row: u32, column: u32) -> Selection {
    let p = Point::new(row, column);
    Selection { id, start: p, end: p, reversed: false }
}

#[test]
fn text_is_split_into_rows_at_every_line_ending() {
    let text = TextRows::from_text("ab\r\ncd\refg\n\nh");
    assert_eq!(text.row_count(), 5);
    assert_eq!(text.row_text(0), "ab");
    assert_eq!(text.row_text(1), "cd");
    assert_eq!(text.row_text(2), "efg");
    assert_eq!(text.row_text(3), "");
    assert_eq!(text.row_text(4), "h");
    assert_eq!(text.row_text(9), "");
    assert_eq!(text.line_len(2), 3);
    assert_eq!(text.line_len(9), 0);
    assert_eq!(text.max_point(), Point::new(4, 1));
    let empty = TextRows::from_text("");
    assert_eq!(empty.row_count(), 1);
    assert_eq!(empty.max_point(), Point::new(0, 0));
}

#[test]
fn row_lengths_count_bytes() {
    let text = TextRows::from_text("héllo\n→x");
    assert_eq!(text.line_len(0), 6);
    assert_eq!(text.line_len(1), 4);
    assert_eq!(text.max_point(), Point::new(1, 4));
}

#[test]
fn heads_move_to_line_and_document_ends() {
    let text = TextRows::from_text("  one\ntwo\n\tthree");
    let sel = cursor(0, 1, 2);
    assert_eq!(sel.head(), Point::new(1, 2));
    assert_eq!(sel.move_to_start_of_line(false, &text).head(), Point::new(1, 0));
    assert_eq!(sel.move_to_end_of_line(false, &text).head(), Point::new(1, 3));
    assert_eq!(sel.move_to_start_of_document(false, &text).head(), Point::new(0, 0));
    assert_eq!(sel.move_to_end_of_document(false, &text).head(), Point::new(2, 6));
    assert_eq!(cursor(0, 0, 4).move_to_start_of_line_non_space(false, &text).head(), Point::new(0, 2));
    assert_eq!(cursor(0, 2, 0).move_to_start_of_line_non_space(false, &text).head(), Point::new(2, 1));
    assert_eq!(sel.move_to_previous_line(false, &text).head(), Point::new(0, 5));
    assert_eq!(sel.move_to_next_line(false, &text).head(), Point::new(2, 0));
    assert_eq!(cursor(0, 0, 1).move_to_previous_line(false, &text).head(), Point::new(0, 0));
    assert_eq!(cursor(0, 2, 1).move_to_next_line(false, &text).head(), Point::new(2, 6));
}

#[test]
fn a_row_of_blanks_starts_at_column_zero() {
    let text = TextRows::from_text("   ");
    assert_eq!(cursor(0, 0, 2).move_to_start_of_line_non_space(false, &text).head(), Point::new(0, 0));
}

#[test]
fn anchored_motions_keep_the_tail() {
    let text = TextRows::from_text("hello world");
    let sel = cursor(3, 0, 2);
    let moved = sel.move_to_end_of_line(true, &text);
    assert_eq!(moved, Selection { id: 3, start: Point::new(0, 11), end: Point::new(0, 2), reversed: true });
    assert_eq!(moved.head(), Point::new(0, 11));
    assert_eq!(moved.tail(), Point::new(0, 2));
    let collapsed = sel.move_to_end_of_line(false, &text);
    assert_eq!(collapsed.head(), collapsed.tail());
}

#[test]
fn move_to_line_is_one_based_and_clamped() {
    let text = TextRows::from_text("a\nb\nc");
    let sel = cursor(0, 0, 1);
    assert_eq!(sel.move_to_line(false, 2, &text).head(), Point::new(1, 0));
    assert_eq!(sel.move_to_line(false, 0, &text).head(), Point::new(0, 0));
    assert_eq!(sel.move_to_line(false, 99, &text).head(), Point::new(2, 0));
    // The selection is left unreversed: with an anchor its head is the old tail.
    let anchored = sel.move_to_line(true, 3, &text);
    assert_eq!(anchored, Selection { id: 0, start: Point::new(2, 0), end: Point::new(0, 1), reversed: false });
    assert_eq!(anchored.head(), Point::new(0, 1));
}

#[test]
fn find_character_counts_occurrences_on_the_row() {
    let text = TextRows::from_text("a,b,c,d");
    let sel = cursor(0, 0, 0);
    assert_eq!(sel.find_character(false, 1, ',', true, &text).head(), Point::new(0, 1));
    assert_eq!(sel.find_character(false, 3, ',', true, &text).head(), Point::new(0, 5));
    // Fewer occurrences than asked for: nothing moves.
    assert_eq!(sel.find_character(false, 4, ',', true, &text), sel);
    let end = cursor(0, 0, 6);
    assert_eq!(end.find_character(false, 1, ',', false, &text).head(), Point::new(0, 5));
    assert_eq!(end.find_character(false, 2, ',', false, &text).head(), Point::new(0, 3));
    assert_eq!(end.find_character(false, 1, 'x', false, &text), end);
    // The character under the head is not counted.
    assert_eq!(cursor(0, 0, 1).find_character(false, 1, ',', true, &text).head(), Point::new(0, 3));
    assert_eq!(cursor(0, 0, 3).find_character(false, 1, ',', false, &text).head(), Point::new(0, 1));
}

#[test]
fn find_character_works_in_bytes() {
    // 'a' takes one byte, '→' three and 'é' two.
    let text = TextRows::from_text("a→é→");
    let sel = cursor(0, 0, 0);
    assert_eq!(sel.find_character(false, 1, '→', true, &text).head(), Point::new(0, 1));
    assert_eq!(sel.find_character(false, 2, '→', true, &text).head(), Point::new(0, 6));
    let after = cursor(0, 0, 6);
    assert_eq!(after.find_character(false, 1, 'é', false, &text).head(), Point::new(0, 4));
}

#[test]
fn find_character_with_a_zero_count() {
    let text = TextRows::from_text("abc");
    let sel = cursor(0, 0, 0);
    let stays = sel.find_character(true, 0, 'z', true, &text);
    assert_eq!(stays, Selection { id: 0, start: Point::new(0, 0), end: Point::new(0, 0), reversed: true });
    assert_eq!(sel.find_character(false, 0, 'c', true, &text), sel);
}

#[test]
fn the_collection_adds_and_updates_by_id() {
    let text = TextRows::from_text("one\ntwo");
    let mut sels = SelectionCollection::new();
    assert!(sels.first().is_none());
    let a = sels.add(Point::new(0, 1));
    let b = sels.add(Point::new(1, 2));
    assert_eq!(a.id, 0);
    assert_eq!(b.id, 1);
    assert_eq!(sels.id, 2);
    assert_eq!(sels.first(), Some(&a));
    assert_eq!(sels.last(), Some(&b));
    let moved = b.move_to_start_of_line(false, &text);
    sels.update(&text, &moved);
    assert_eq!(sels.selections, vec![a, moved]);
    sels.update(&text, &cursor(7, 0, 0));
    assert_eq!(sels.selections, vec![a, moved]);
    sels.clear();
    assert!(sels.selections.is_empty());
    assert!(sels.last().is_none());
}

#[test]
fn the_collection_moves_every_selection() {
    let text = TextRows::from_text("  ab\ncd,e\nf");
    let mut sels = SelectionCollection::new();
    sels.add(Point::new(0, 3));
    sels.add(Point::new(1, 0));
    sels.move_to_end_of_line(false, &text);
    assert_eq!(sels.selections[0].head(), Point::new(0, 4));
    assert_eq!(sels.selections[1].head(), Point::new(1, 4));
    sels.move_to_start_of_line_non_space(false, &text);
    assert_eq!(sels.selections[0].head(), Point::new(0, 2));
    assert_eq!(sels.selections[1].head(), Point::new(1, 0));
    sels.find_character(false, 1, ',', true, &text);
    assert_eq!(sels.selections[0].head(), Point::new(0, 2));
    assert_eq!(sels.selections[1].head(), Point::new(1, 2));
    sels.move_to_line(false, 3, &text);
    assert_eq!(sels.selections[0].head(), Point::new(2, 0));
    sels.move_to_end_of_document(false, &text);
    assert_eq!(sels.selections[1].head(), Point::new(2, 1));
    sels.move_to_start_of_document(false, &text);
    assert_eq!(sels.selections[0].head(), Point::new(0, 0));
    sels.move_to_start_of_line(false, &text);
    assert_eq!(sels.selections[1].head(), Point::new(0, 0));
}

#[test]
fn selected_positions_lie_between_the_ends() {
    let text = TextRows::from_text("abcdef\nghijkl\nmnop");
    let mut sels = SelectionCollection::new();
    sels.add(Point::new(0, 2));
    let extended = sels.selections[0].move_to_end_of_line(true, &text);
    let extended = Selection { start: Point::new(1, 3), ..extended };
    sels.update(&text, &extended);
    // From (0, 2) to the head at (1, 3).
    assert!(sels.has_selection(&text));
    assert_eq!(sels.is_selected(0, 1, &text), (false, true, false));
    assert_eq!(sels.is_selected(0, 2, &text), (true, true, false));
    assert_eq!(sels.is_selected(0, 5, &text), (true, true, false));
    assert_eq!(sels.is_selected(1, 3, &text), (true, true, true));
    assert_eq!(sels.is_selected(1, 4, &text), (false, true, false));
    assert_eq!(sels.is_selected(2, 0, &text), (false, false, false));
    sels.clear_selections(&text);
    assert!(!sels.has_selection(&text));
    assert_eq!(sels.selections[0], Selection { id: 0, start: Point::new(1, 3), end: Point::new(1, 3), reversed: false });
}

#[test]
fn a_head_before_its_tail_is_the_start() {
    let text = TextRows::from_text("abcdef");
    let mut sels = SelectionCollection::new();
    sels.add(Point::new(0, 4));
    let back = sels.selections[0].move_to_start_of_line(true, &text);
    sels.update(&text, &back);
    assert_eq!(sels.is_selected(0, 0, &text), (true, true, true));
    assert_eq!(sels.is_selected(0, 4, &text), (true, true, false));
    assert_eq!(sels.is_selected(0, 5, &text), (false, true, false));
}

#[test]
fn a_new_document_has_one_cursor_at_its_start() {
    let mut doc = Document::new_with_text("fn main() {\n    body\n}");
    assert_eq!(doc.current_mode(), Mode::Normal);
    assert_eq!(doc.buffer().row_count(), 3);
    assert_eq!(doc.selection(), cursor(0, 0, 0));
    assert!(doc.folds.is_empty());
    assert!(!doc.has_selection());
    let second = doc.add_selection();
    assert_eq!(second.id, 1);
    assert_eq!(doc.selections().selections.len(), 2);
}

#[test]
fn heads_inside_a_fold_leave_it_in_the_direction_of_motion() {
    let mut doc = Document::new_with_text("fn main() {\n    body\n}");
    doc.folds.push(Fold { start: Point::new(0, 11), end: Point::new(2, 0) });
    doc.selections.selections[0] = cursor(0, 1, 2);
    doc.snap_selections_to_folds(&Action::MoveDown { count: 1, select: false });
    assert_eq!(doc.selection().head(), Point::new(2, 0));
    assert_eq!(doc.selections().point, Point::new(2, 0));

    doc.selections.selections[0] = cursor(0, 1, 2);
    doc.snap_selections_to_folds(&Action::MoveUp { count: 1, select: false });
    assert_eq!(doc.selection().head(), Point::new(0, 11));

    // A head on a fold's boundary is not inside it.
    doc.selections.selections[0] = cursor(0, 2, 0);
    doc.snap_selections_to_folds(&Action::MoveLeft { count: 1, select: false });
    assert_eq!(doc.selection().head(), Point::new(2, 0));
}

#[test]
fn nothing_snaps_without_folds() {
    let mut doc = Document::new_with_text("abc\ndef");
    doc.selections.selections[0] = cursor(0, 1, 1);
    doc.selections.point = Point::new(0, 2);
    doc.snap_selections_to_folds(&Action::MoveDown { count: 1, select: false });
    assert_eq!(doc.selection(), cursor(0, 1, 1));
    assert_eq!(doc.selections().point, Point::new(0, 2));
}

#[test]
fn unfolding_drops_the_folds_under_a_head() {
    let mut doc = Document::new_with_text("a\nb\nc\nd\ne");
    doc.folds.push(Fold { start: Point::new(0, 1), end: Point::new(1, 1) });
    doc.folds.push(Fold { start: Point::new(2, 0), end: Point::new(3, 1) });
    doc.folds.push(Fold { start: Point::new(3, 0), end: Point::new(4, 0) });
    doc.selections.selections[0] = cursor(0, 3, 0);
    doc.unfold(1);
    assert_eq!(doc.folds, vec![Fold { start: Point::new(0, 1), end: Point::new(1, 1) }]);
}

#[test]
fn single_steps_cross_row_ends() {
    let text = TextRows::from_text("abc\nde\nfghij");
    assert_eq!(cursor(0, 0, 1).move_left_once(false, &text).head(), Point::new(0, 0));
    assert_eq!(cursor(0, 0, 0).move_left_once(false, &text).head(), Point::new(0, 0));
    assert_eq!(cursor(0, 1, 0).move_left_once(false, &text).head(), Point::new(0, 3));
    assert_eq!(cursor(0, 0, 3).move_right_once(false, &text).head(), Point::new(1, 0));
    assert_eq!(cursor(0, 2, 5).move_right_once(false, &text).head(), Point::new(2, 5));
    let extended = cursor(4, 1, 1).move_right_once(true, &text);
    assert_eq!(extended, Selection { id: 4, start: Point::new(1, 2), end: Point::new(1, 1), reversed: true });
}

#[test]
fn counted_steps_move_every_cursor_and_set_the_goal_column() {
    let text = TextRows::from_text("abc\nde\nfghij");
    let mut sels = SelectionCollection::new();
    sels.add(Point::new(0, 2));
    sels.add(Point::new(2, 1));
    sels.move_right(false, 2, &text);
    assert_eq!(sels.selections[0].head(), Point::new(1, 0));
    assert_eq!(sels.selections[1].head(), Point::new(2, 3));
    assert_eq!(sels.point, Point::new(2, 3));
    sels.move_left(false, 1, &text);
    assert_eq!(sels.selections[0].head(), Point::new(0, 3));
    assert_eq!(sels.selections[1].head(), Point::new(2, 2));
    assert_eq!(sels.point, Point::new(2, 2));
    sels.move_left(false, 0, &text);
    assert_eq!(sels.point, Point::new(2, 2));
}

#[test]
fn vertical_steps_aim_at_the_goal_column() {
    let text = TextRows::from_text("abc\nde\nfghij");
    let mut sels = SelectionCollection::new();
    sels.add(Point::new(0, 2));
    sels.point = Point::new(0, 2);
    sels.move_down(false, 1, &text);
    assert_eq!(sels.selections[0].head(), Point::new(1, 2));
    sels.move_down(false, 1, &text);
    assert_eq!(sels.selections[0].head(), Point::new(2, 2));
    sels.move_down(false, 1, &text);
    assert_eq!(sels.selections[0].head(), Point::new(2, 5));

    let mut sels = SelectionCollection::new();
    sels.add(Point::new(2, 4));
    sels.point = Point::new(2, 4);
    sels.move_up(false, 1, &text);
    // The goal column is past the end of the shorter row: the head keeps its
    // own column, clamped to the row.
    assert_eq!(sels.selections[0].head(), Point::new(1, 2));
    sels.move_up(false, 2, &text);
    assert_eq!(sels.selections[0].head(), Point::new(0, 2));

    let mut sels = SelectionCollection::new();
    sels.add(Point::new(2, 4));
    sels.point = Point::new(2, 1);
    sels.move_up(false, 1, &text);
    assert_eq!(sels.selections[0].head(), Point::new(1, 1));
    assert_eq!(sels.point, Point::new(2, 1));
}
