//! The display map: the soft-wrapped display of a buffer plus the viewport
//! (scroll offsets, screen size and margins) it is drawn into.
use vstd::prelude::*;
use crate::buffer::{BufferSnapshot, clip_point_spec};
use crate::point::{Point, WrapPoint};
use crate::wrap_map::{
    WrapMap, WrapSnapshot, clip_wrap_spec, display_row_in_line, from_column, lemma_display_row_unique,
    lemma_from_column_in_row, lemma_max_point, lemma_rows_before_step, lemma_rows_before_mono, max_wrap_point_spec,
    rows_before, row_of, from_wrap_spec, display_line_len_spec, segment_len, to_wrap_spec, total_rows,
};

verus! {

/// A position on the display.
#[derive(Clone, Copy, Debug, PartialEq, Eq, PartialOrd, Ord, Structural)]
pub struct DisplayPoint(pub WrapPoint);

impl DisplayPoint {
    pub fn new(row: u32, column: u32) -> (p: DisplayPoint)
        ensures
            p.0.row == row,
            p.0.column == column,
    {
        DisplayPoint(WrapPoint::new(row, column))
    }

    pub fn row(&self) -> (r: u32)
        ensures
            r == self.0.row,
    {
        self.0.row
    }

    pub fn column(&self) -> (c: u32)
        ensures
            c == self.0.column,
    {
        self.0.column
    }
}

/// `a - b` saturating at the bounds of `i32`.
pub open spec fn sat_sub_i32(a: int, b: int) -> int {
    if a - b < i32::MIN {
        i32::MIN as int
    } else if a - b > i32::MAX {
        i32::MAX as int
    } else {
        a - b
    }
}

/// `a - b`, saturating at the bounds of `i32`.
pub fn saturating_sub_i32(a: i32, b: i32) -> (r: i32)
    ensures
        r == sat_sub_i32(a as int, b as int),
{
    let d = a as i64 - b as i64;
    if d < i32::MIN as i64 {
        i32::MIN
    } else if d > i32::MAX as i64 {
        i32::MAX
    } else {
        d as i32
    }
}

/// Number of text rows visible on a screen of `screen_rows` rows: one row is
/// kept for the status line, and the vertical margins are removed.
pub open spec fn visible_rows_spec(screen_rows: int, margin_top: int, margin_bottom: int) -> int {
    sat_sub_i32(sat_sub_i32(screen_rows - 1, margin_top), margin_bottom)
}

/// Number of text columns visible on a screen of `screen_cols` columns.
pub open spec fn visible_cols_spec(screen_cols: int, margin_left: int, margin_right: int) -> int {
    sat_sub_i32(sat_sub_i32(screen_cols, margin_left), margin_right)
}

/// The scroll offset after scrolling just enough to show position `pos` in a
/// window of `visible` cells that was scrolled to `scroll`: scroll forward
/// until `pos` is before the window's end, then back until it is not before its start.
pub open spec fn scroll_axis(pos: int, scroll: int, visible: int) -> int {
    let s1 = if pos - scroll >= visible { pos - visible + 1 } else { scroll };
    if pos - s1 < 0 && s1 > 0 {
        if pos > 0 { pos } else { 0 }
    } else {
        s1
    }
}

/// The inputs for which scrolling stays within `i32` arithmetic.
pub open spec fn scroll_in_range(pos: int, scroll: int, visible: int) -> bool {
    0 <= pos <= i32::MAX && 0 <= scroll <= i32::MAX && pos - visible + 1 <= i32::MAX
}

/// Scrolls one axis until `pos` is visible.
fn scroll_axis_exec(pos: i32, scroll: u32, visible: i32) -> (s: u32)
    requires
        scroll_in_range(pos as int, scroll as int, visible as int),
    ensures
        s == scroll_axis(pos as int, scroll as int, visible as int),
{
    let mut scroll = scroll;
    let ghost s0 = scroll as int;
    let mut screen = pos - scroll as i32;
    while screen >= visible
        invariant
            scroll_in_range(pos as int, s0, visible as int),
            s0 <= scroll <= i32::MAX,
            pos - s0 >= visible ==> scroll <= pos - visible + 1,
            pos - s0 < visible ==> scroll == s0,
            screen == pos - scroll,
        decreases i32::MAX - scroll,
    {
        scroll = scroll + 1;
        screen = pos - scroll as i32;
    }
    let ghost s1 = scroll as int;
    assert(s1 == if pos - s0 >= visible { pos - visible + 1 } else { s0 });
    while screen < 0 && scroll > 0
        invariant
            0 <= pos,
            scroll <= s1,
            s1 <= i32::MAX,
            screen == pos - scroll,
            pos - s1 < 0 && s1 > 0 ==> scroll >= pos,
            !(pos - s1 < 0 && s1 > 0) ==> scroll == s1,
        decreases scroll,
    {
        scroll = scroll - 1;
        screen = pos - scroll as i32;
    }
    scroll
}

/// A buffer's wrapped display together with its viewport.
pub struct DisplayMap {
    pub wrap_map: WrapMap,
    pub scroll_x: u32,
    pub scroll_y: u32,
    pub screen_rows: u32,
    pub screen_cols: u32,
    pub margin_left: u32,
    pub margin_right: u32,
    pub margin_top: u32,
    pub margin_bottom: u32,
}

/// A snapshot of the display and its viewport.
pub struct DisplaySnapshot {
    pub wrap_snapshot: WrapSnapshot,
    pub scroll_x: u32,
    pub scroll_y: u32,
    pub screen_rows: u32,
    pub screen_cols: u32,
    pub margin_left: u32,
    pub margin_right: u32,
    pub margin_top: u32,
    pub margin_bottom: u32,
}

impl DisplayMap {
    /// Row lengths of the displayed buffer.
    pub open spec fn lens(&self) -> Seq<u32> {
        self.wrap_map.lens()
    }

    /// The wrap width.
    pub open spec fn width(&self) -> Option<u32> {
        self.wrap_map.width()
    }

    /// Displays `buffer` wrapped at `wrap_width`, unscrolled, with no margins.
    pub fn new(buffer: BufferSnapshot, wrap_width: Option<u32>) -> (m: DisplayMap)
        requires
            buffer.wf(),
            total_rows(buffer@, wrap_width) <= u32::MAX,
        ensures
            m.lens() == buffer@,
            m.width() == wrap_width,
            m.scroll_x == 0 && m.scroll_y == 0,
            m.screen_rows == 0 && m.screen_cols == 0,
            m.margin_left == 0 && m.margin_right == 0 && m.margin_top == 0 && m.margin_bottom == 0,
    {
        DisplayMap {
            wrap_map: WrapMap::new(buffer, wrap_width),
            scroll_x: 0,
            scroll_y: 0,
            screen_rows: 0,
            screen_cols: 0,
            margin_left: 0,
            margin_right: 0,
            margin_top: 0,
            margin_bottom: 0,
        }
    }

    /// A snapshot of the display and its viewport.
    pub fn snapshot(&self) -> (s: DisplaySnapshot)
        ensures
            s.lens() == self.lens(),
            s.width() == self.width(),
            s.scroll_x == self.scroll_x && s.scroll_y == self.scroll_y,
            s.screen_rows == self.screen_rows && s.screen_cols == self.screen_cols,
            s.margin_left == self.margin_left && s.margin_right == self.margin_right,
            s.margin_top == self.margin_top && s.margin_bottom == self.margin_bottom,
    {
        DisplaySnapshot {
            wrap_snapshot: self.wrap_map.snapshot(),
            scroll_x: self.scroll_x,
            scroll_y: self.scroll_y,
            screen_rows: self.screen_rows,
            screen_cols: self.screen_cols,
            margin_left: self.margin_left,
            margin_right: self.margin_right,
            margin_top: self.margin_top,
            margin_bottom: self.margin_bottom,
        }
    }

    /// Changes the wrap width.
    pub fn set_wrap_width(&mut self, width: Option<u32>)
        requires
            total_rows(old(self).lens(), width) <= u32::MAX,
        ensures
            final(self).width() == width,
            final(self).lens() == old(self).lens(),
            final(self).scroll_x == old(self).scroll_x && final(self).scroll_y == old(self).scroll_y,
            final(self).screen_rows == old(self).screen_rows && final(self).screen_cols == old(self).screen_cols,
            final(self).margin_left == old(self).margin_left && final(self).margin_right == old(self).margin_right,
            final(self).margin_top == old(self).margin_top && final(self).margin_bottom == old(self).margin_bottom,
    {
        self.wrap_map.set_wrap_width(width);
    }

    /// Displays a new snapshot of the buffer.
    pub fn sync(&mut self, buffer: BufferSnapshot)
        requires
            buffer.wf(),
            total_rows(buffer@, old(self).width()) <= u32::MAX,
        ensures
            final(self).lens() == buffer@,
            final(self).width() == old(self).width(),
            final(self).scroll_x == old(self).scroll_x && final(self).scroll_y == old(self).scroll_y,
            final(self).screen_rows == old(self).screen_rows && final(self).screen_cols == old(self).screen_cols,
            final(self).margin_left == old(self).margin_left && final(self).margin_right == old(self).margin_right,
            final(self).margin_top == old(self).margin_top && final(self).margin_bottom == old(self).margin_bottom,
    {
        self.wrap_map.sync(buffer);
    }

    /// Records the screen size and scrolls just enough to keep the cursor
    /// visible: vertically always, horizontally when some columns are visible.
    pub fn scroll_to_cursor(&mut self, display_cursor: DisplayPoint, screen_rows: i32, screen_cols: i32)
        requires
            screen_rows > i32::MIN,
            old(self).margin_left <= i32::MAX && old(self).margin_right <= i32::MAX,
            old(self).margin_top <= i32::MAX && old(self).margin_bottom <= i32::MAX,
            scroll_in_range(
                display_cursor.0.row as int,
                old(self).scroll_y as int,
                visible_rows_spec(screen_rows as int, old(self).margin_top as int, old(self).margin_bottom as int),
            ),
            visible_cols_spec(screen_cols as int, old(self).margin_left as int, old(self).margin_right as int) > 0
                ==> scroll_in_range(
                display_cursor.0.column as int,
                old(self).scroll_x as int,
                visible_cols_spec(screen_cols as int, old(self).margin_left as int, old(self).margin_right as int),
            ),
        ensures
            final(self).screen_rows == screen_rows as u32,
            final(self).screen_cols == screen_cols as u32,
            final(self).scroll_y == scroll_axis(
                display_cursor.0.row as int,
                old(self).scroll_y as int,
                visible_rows_spec(screen_rows as int, old(self).margin_top as int, old(self).margin_bottom as int),
            ),
            final(self).scroll_x == if visible_cols_spec(screen_cols as int, old(self).margin_left as int, old(self).margin_right as int) > 0 {
                scroll_axis(
                    display_cursor.0.column as int,
                    old(self).scroll_x as int,
                    visible_cols_spec(screen_cols as int, old(self).margin_left as int, old(self).margin_right as int),
                )
            } else {
                old(self).scroll_x as int
            },
            final(self).lens() == old(self).lens(),
            final(self).width() == old(self).width(),
            final(self).margin_left == old(self).margin_left && final(self).margin_right == old(self).margin_right,
            final(self).margin_top == old(self).margin_top && final(self).margin_bottom == old(self).margin_bottom,
    {
        let cursor_row = display_cursor.row() as i32;
        let cursor_col = display_cursor.column() as i32;

        self.screen_rows = screen_rows as u32;
        self.screen_cols = screen_cols as u32;

        let visible_rows = saturating_sub_i32(
            saturating_sub_i32(screen_rows - 1, self.margin_top as i32),
            self.margin_bottom as i32,
        );
        let visible_cols = saturating_sub_i32(
            saturating_sub_i32(screen_cols, self.margin_left as i32),
            self.margin_right as i32,
        );

        self.scroll_y = scroll_axis_exec(cursor_row, self.scroll_y, visible_rows);
        if visible_cols > 0 {
            self.scroll_x = scroll_axis_exec(cursor_col, self.scroll_x, visible_cols);
        }
    }
}

impl DisplaySnapshot {
    /// Row lengths of the displayed buffer.
    pub open spec fn lens(&self) -> Seq<u32> {
        self.wrap_snapshot.lens()
    }

    /// The wrap width.
    pub open spec fn width(&self) -> Option<u32> {
        self.wrap_snapshot.width()
    }

    /// The last display position.
    pub open spec fn max_spec(&self) -> WrapPoint {
        max_wrap_point_spec(self.lens(), self.width())
    }

    /// Horizontal offset of the text area: the left margin.
    pub fn x(&self) -> (x: u32)
        ensures
            x == self.margin_left,
    {
        self.margin_left
    }

    /// Vertical offset of the text area; it reports the left margin.
    pub fn y(&self) -> (y: u32)
        ensures
            y == self.margin_left,
    {
        self.margin_left
    }

    /// The row lengths of the displayed buffer.
    pub fn buffer_snapshot(&self) -> (b: &BufferSnapshot)
        ensures
            b@ == self.lens(),
            b.wf(),
    {
        self.wrap_snapshot.buffer_snapshot()
    }

    /// Number of display rows.
    pub fn row_count(&self) -> (n: u32)
        ensures
            n == total_rows(self.lens(), self.width()),
    {
        self.wrap_snapshot.row_count()
    }

    /// Length of a display row; zero past the last row.
    pub fn line_len(&self, row: u32) -> (l: u32)
        ensures
            row > self.max_spec().row ==> l == 0,
            forall|r: int|
                0 <= r < self.lens().len() && display_row_in_line(self.lens(), self.width(), r, row as int)
                    ==> l == segment_len(self.lens()[r] as int, self.width(), row - rows_before(self.lens(), self.width(), r)),
            l == display_line_len_spec(self.lens(), self.width(), row as int),
    {
        self.wrap_snapshot.line_len(row)
    }

    /// The last display position.
    pub fn max_point(&self) -> (p: DisplayPoint)
        ensures
            p.0 == self.max_spec(),
    {
        DisplayPoint(self.wrap_snapshot.max_point())
    }

    /// The display position of a buffer point (clipped into the buffer).
    pub fn point_to_display_point(&self, point: Point) -> (p: DisplayPoint)
        ensures
            p.0 == to_wrap_spec(self.lens(), self.width(), clip_point_spec(self.lens(), point)),
    {
        DisplayPoint(self.wrap_snapshot.to_wrap_point(point))
    }

    /// The buffer position of a display point (clipped to the display); see
    /// `WrapSnapshot::from_wrap_point`.
    pub fn display_point_to_point(&self, display_point: DisplayPoint) -> (p: Point)
        requires
            display_point.0.column <= display_line_len_spec(self.lens(), self.width(), display_point.0.row as int)
                || self.wrap_snapshot.from_wrap_fits(display_point.0),
        ensures
            p.row < self.lens().len(),
            display_row_in_line(self.lens(), self.width(), p.row as int, clip_wrap_spec(display_point.0, self.max_spec()).row as int),
            p.column == from_column(
                self.lens()[p.row as int] as int,
                self.width(),
                clip_wrap_spec(display_point.0, self.max_spec()).row - rows_before(self.lens(), self.width(), p.row as int),
                clip_wrap_spec(display_point.0, self.max_spec()).column as int,
            ),
            p == from_wrap_spec(self.lens(), self.width(), display_point.0),
    {
        self.wrap_snapshot.from_wrap_point(display_point.0)
    }

    /// Whether converting `q` back to the buffer stays within `u32` columns.
    pub open spec fn fits(&self, q: DisplayPoint) -> bool {
        self.wrap_snapshot.from_wrap_fits(q.0)
    }

    /// The buffer row shown on a display row.
    pub fn buffer_row_for_display_row(&self, display_row: u32) -> (row: u32)
        ensures
            row == from_wrap_spec(self.lens(), self.width(), WrapPoint { row: display_row, column: 0 }).row,
            row < self.lens().len(),
    {
        let rows = self.row_count();
        let buffer = self.buffer_snapshot();
        let len = self.line_len(display_row);
        self.display_point_to_point(DisplayPoint::new(display_row, 0)).row
    }

    /// The buffer points at the start and at the end of a display row.
    pub fn buffer_range_for_display_row(&self, display_row: u32) -> (range: (Point, Point))
        ensures
            range.0 == from_wrap_spec(self.lens(), self.width(), WrapPoint { row: display_row, column: 0 }),
            range.1 == from_wrap_spec(
                self.lens(),
                self.width(),
                WrapPoint { row: display_row, column: display_line_len_spec(self.lens(), self.width(), display_row as int) as u32 },
            ),
    {
        let rows = self.row_count();
        let buffer = self.buffer_snapshot();
        let len = self.line_len(display_row);
        proof {
        }
        let start = self.display_point_to_point(DisplayPoint::new(display_row, 0));
        let end = self.display_point_to_point(DisplayPoint::new(display_row, len));
        (start, end)
    }
}

} // verus!
