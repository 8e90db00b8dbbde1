use dzed::selections::offset_to_column;
use dzed::actions::{Action, Mode};
use dzed::command::cycle_buffer;
use dzed::document::plan_action;
use dzed::background::{accept_result, TaskId};
use dzed::buffer::BufferSnapshot;
use dzed::display_map::{DisplayMap, DisplayPoint};
use dzed::wrap_map::display_rows_fit;
use dzed::highlight::find_entry;
use dzed::point::{wrap_delta, Point, WrapPoint};
use dzed::profiler::Profiler;
use dzed::project::{InlayHint, InlayHintLabel, ResolveState};
use std::collections::HashMap;

#[test]
fn actions_take_counts_and_selection() {
    assert_eq!(Action::MoveLeft { count: 1, select: false }.with_count(4), Action::MoveLeft { count: 4, select: false });
    assert_eq!(Action::MoveUp { count: 2, select: false }.with_select(true), Action::MoveUp { count: 2, select: true });
    assert_eq!(Action::Undo { count: 1 }.with_select(true), Action::NoOp);
    assert_eq!(Action::Yank { count: 3 }.count(), 3);
    assert_eq!(Action::Clear.count(), 1);
    assert_eq!(Action::InsertText(String::new()).with_char('z', 1), Action::InsertText("z".to_string()));
    assert_eq!(Action::Delete { count: 12 }.to_display_string(), "Delete(12)");
    assert!(Mode::VisualBlock.is_visual());
    assert!(!Mode::Command.is_visual());
    assert_eq!(Mode::VisualLine.name(), "V-Line");
}

#[test]
fn the_display_scrolls_to_keep_the_cursor_visible() {
    let mut map = DisplayMap::new(BufferSnapshot::from_text("a\nb\nc\nd\ne\nf\ng\nh"), None);
    map.scroll_to_cursor(DisplayPoint::new(6, 0), 4, 80);
    assert_eq!(map.scroll_y, 4);
    map.scroll_to_cursor(DisplayPoint::new(1, 0), 4, 80);
    assert_eq!(map.scroll_y, 1);
    let snapshot = map.snapshot();
    assert_eq!(snapshot.row_count(), 8);
    assert_eq!(snapshot.point_to_display_point(Point::new(2, 1)), DisplayPoint::new(2, 1));
    assert_eq!(DisplayPoint::new(3, 5).row(), 3);
    assert_eq!(DisplayPoint::new(3, 5).column(), 5);
}

#[test]
fn wrap_deltas() {
    assert_eq!(wrap_delta(WrapPoint::new(3, 4), WrapPoint::new(3, 1)), WrapPoint::new(0, 3));
    assert_eq!(wrap_delta(WrapPoint::new(5, 2), WrapPoint::new(3, 7)), WrapPoint::new(2, 2));
    let mut p = WrapPoint::new(1, 1);
    p.add_assign(WrapPoint::new(0, 2));
    assert_eq!(p, WrapPoint::new(1, 3));
}

#[test]
fn cached_states_are_found_at_or_after_the_row() {
    let mut cache: HashMap<usize, &str> = HashMap::new();
    cache.insert(32, "a");
    cache.insert(64, "b");
    cache.insert(128, "c");
    assert_eq!(find_entry(&cache, 64), Some((&64, &"b")));
    assert_eq!(find_entry(&cache, 65), Some((&128, &"c")));
    assert_eq!(find_entry(&cache, 0), Some((&32, &"a")));
    assert_eq!(find_entry(&cache, 200), None);
}

#[test]
fn the_profiler_counts_calls() {
    let mut profiler = Profiler::new();
    let x = profiler.profile("work", || 40 + 2);
    assert_eq!(x, 42);
    profiler.profile("work", || ());
    profiler.profile("other", || ());
    let entries = profiler.entries();
    assert_eq!(entries.len(), 2);
    assert_eq!(entries[0].0, "work");
    assert_eq!(entries[0].1.calls, 2);
    assert_eq!(entries[1].1.calls, 1);
}

#[test]
fn inlay_hints_show_their_label() {
    let hint = InlayHint {
        label: InlayHintLabel::String(": u32".to_string()),
        resolve_state: ResolveState::Resolved,
        padding_left: false,
        padding_right: true,
        tooltip: None,
    };
    assert_eq!(hint.text(), ": u32");
    assert!(TaskId(1) < TaskId(2));
}

#[test]
fn byte_offsets_become_character_columns() {
    let text = "héllo".to_string();
    assert_eq!(offset_to_column(&text, 0), 0);
    assert_eq!(offset_to_column(&text, 1), 1);
    assert_eq!(offset_to_column(&text, 2), 0);
    assert_eq!(offset_to_column(&text, 3), 2);
    assert_eq!(offset_to_column(&text, 6), 0);
}

#[test]
fn display_rows_map_back_to_buffer_rows() {
    // "abcdefgh" wraps at 3 into "abc", "def", "gh"; "xy" stays one row.
    let buffer = BufferSnapshot::from_text("abcdefgh\nxy");
    assert!(display_rows_fit(&buffer, Some(3)));
    let map = DisplayMap::new(buffer, Some(3));
    let snapshot = map.snapshot();
    assert_eq!(snapshot.row_count(), 4);
    assert_eq!(snapshot.buffer_row_for_display_row(0), 0);
    assert_eq!(snapshot.buffer_row_for_display_row(2), 0);
    assert_eq!(snapshot.buffer_row_for_display_row(3), 1);
    assert_eq!(snapshot.buffer_range_for_display_row(1), (Point::new(0, 3), Point::new(0, 6)));
    assert_eq!(snapshot.buffer_range_for_display_row(2), (Point::new(0, 6), Point::new(0, 8)));
    assert_eq!(snapshot.buffer_range_for_display_row(3), (Point::new(1, 0), Point::new(1, 2)));
    assert_eq!(snapshot.wrap_snapshot.clip_buffer_point(Point::new(5, 9)), Point::new(1, 2));
    assert_eq!(snapshot.wrap_snapshot.clip_buffer_point(Point::new(0, 20)), Point::new(0, 8));
}

#[test]
fn stale_task_results_are_dropped() {
    assert!(TaskId(3).is_superseded(4));
    assert!(!TaskId(4).is_superseded(4));
    assert_eq!(accept_result(5, TaskId(7)), (7, true));
    assert_eq!(accept_result(5, TaskId(5)), (5, true));
    assert_eq!(accept_result(7, TaskId(5)), (7, false));
    // Results arriving out of order leave the newest one in place.
    let mut current = 0;
    for id in [2u64, 5, 3, 4] {
        current = accept_result(current, TaskId(id)).0;
    }
    assert_eq!(current, 5);
}

#[test]
fn white_space_agrees_with_std_on_every_character() {
    for v in 0u32..=0x10FFFF {
        if let Some(c) = char::from_u32(v) {
            assert_eq!(dzed::text_util::is_whitespace(c), c.is_whitespace(), "U+{:04X}", v);
        }
    }
}

#[test]
fn display_and_wrap_points_order_by_row_then_column() {
    assert!(DisplayPoint::new(1, 9) < DisplayPoint::new(2, 0));
    assert!(DisplayPoint::new(2, 3) < DisplayPoint::new(2, 4));
    assert!(!(DisplayPoint::new(2, 4) < DisplayPoint::new(2, 4)));
    assert!(WrapPoint::new(0, 7) < WrapPoint::new(1, 0));
    assert_eq!(WrapPoint::new(3, 1).max(WrapPoint::new(2, 9)), WrapPoint::new(3, 1));
}

fn default_settings() -> dzed::settings::AppContext {
    dzed::settings::AppContext {
        use_colorscheme: true,
        wrap: false,
        syntax: true,
        tree_sitter: false,
        show_line_numbers: true,
        fold: true,
        fold_multiline_only: true,
        screen_rows: 24,
        screen_cols: 80,
        focused_window: None,
        should_redraw: false,
        should_sync: false,
    }
}

#[test]
fn set_commands_switch_settings() {
    use_set(&["wrap"], |s| assert!(s.wrap));
    use_set(&["wrap", "nowrap"], |s| assert!(!s.wrap));
    use_set(&["nonu"], |s| assert!(!s.show_line_numbers));
    use_set(&["nonu", "nu"], |s| assert!(s.show_line_numbers));
    use_set(&["nonumber"], |s| assert!(!s.show_line_numbers));
    use_set(&["nofold"], |s| assert!(!s.fold));
    use_set(&["nofold", "fold"], |s| assert!(s.fold));
    use_set(&["nofoldmultiline"], |s| assert!(!s.fold_multiline_only));
    use_set(&["nofoldmultiline", "foldmultiline"], |s| assert!(s.fold_multiline_only));
    use_set(&["treesitter"], |s| assert!(s.tree_sitter));
    use_set(&["treesitter", "notreesitter"], |s| assert!(!s.tree_sitter));
    use_set(&["tree"], |s| assert!(s.tree_sitter));
    use_set(&["bogus"], |s| assert_eq!(s, default_settings()));
}

fn use_set(args: &[&str], check: impl Fn(dzed::settings::AppContext)) {
    let mut s = default_settings();
    let args: Vec<String> = args.iter().map(|a| a.to_string()).collect();
    dzed::command::set_options(&mut s, &args);
    check(s);
}

#[test]
fn syntax_commands_switch_highlighting() {
    let mut s = default_settings();
    dzed::command::syntax_option(&mut s, Some("off"));
    assert!(!s.syntax);
    dzed::command::syntax_option(&mut s, Some("maybe"));
    assert!(!s.syntax);
    dzed::command::syntax_option(&mut s, None);
    assert!(!s.syntax);
    dzed::command::syntax_option(&mut s, Some("on"));
    assert!(s.syntax);
    dzed::command::set_option(&mut s, "nowrap");
    assert!(!s.wrap);
}

#[test]
fn counts_are_written_in_decimal() {
    assert_eq!(Action::Delete { count: 0 }.to_display_string(), "Delete(0)");
    assert_eq!(Action::Yank { count: 9 }.to_display_string(), "Yank(9)");
    assert_eq!(Action::Change { count: 10 }.to_display_string(), "Change(10)");
    assert_eq!(Action::Delete { count: 4294967295 }.to_display_string(), "Delete(4294967295)");
    assert_eq!(Action::Delete { count: 1000200 }.to_display_string(), "Delete(1000200)");
}

#[test]
fn buffer_commands_go_round_the_open_buffers() {
    let ids = vec![4, 7, 9];
    assert_eq!(cycle_buffer(&ids, 4, true), Some(7));
    assert_eq!(cycle_buffer(&ids, 9, true), Some(4));
    assert_eq!(cycle_buffer(&ids, 4, false), Some(9));
    assert_eq!(cycle_buffer(&ids, 7, false), Some(4));
    assert_eq!(cycle_buffer(&ids, 5, true), None);
    assert_eq!(cycle_buffer(&vec![3], 3, true), Some(3));
    assert_eq!(cycle_buffer(&vec![], 3, false), None);
}

#[test]
fn actions_are_planned_by_mode() {
    assert_eq!(plan_action(Mode::Normal, &Action::Change { count: 2 }), (Action::Change { count: 2 }, Action::SetToInsert));
    assert_eq!(plan_action(Mode::Normal, &Action::ChangeLine { count: 1 }), (Action::ChangeLine { count: 1 }, Action::SetToInsert));
    assert_eq!(plan_action(Mode::Normal, &Action::Yank { count: 1 }), (Action::Yank { count: 1 }, Action::NoOp));
    assert_eq!(plan_action(Mode::Insert, &Action::Delete { count: 1 }), (Action::Delete { count: 1 }, Action::NoOp));
    assert_eq!(
        plan_action(Mode::Visual, &Action::MoveLeft { count: 3, select: false }),
        (Action::MoveLeft { count: 3, select: true }, Action::NoOp)
    );
    assert_eq!(plan_action(Mode::Visual, &Action::Yank { count: 1 }), (Action::Yank { count: 1 }, Action::SetToNormal));
    assert_eq!(plan_action(Mode::VisualLine, &Action::YankLine { count: 2 }), (Action::YankLine { count: 2 }, Action::SetToNormal));
    assert_eq!(plan_action(Mode::VisualBlock, &Action::Delete { count: 1 }), (Action::Delete { count: 1 }, Action::SetToInsert));
    assert_eq!(plan_action(Mode::Visual, &Action::Delete { count: 1 }), (Action::Delete { count: 1 }, Action::NoOp));
    assert_eq!(plan_action(Mode::Visual, &Action::Clear), (Action::Clear, Action::NoOp));
    assert_eq!(
        plan_action(Mode::VisualLine, &Action::MoveToWord { count: 2, select: false }),
        (Action::MoveToWord { count: 2, select: true }, Action::NoOp)
    );
}
