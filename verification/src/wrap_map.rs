//! Soft wrapping of buffer rows at a fixed column width.
//!
//! Every buffer row of length `len` wider than the wrap width `w` is cut into
//! segments of `w` columns; the last segment holds the remainder. Each segment
//! occupies one display row. A point at a segment boundary belongs to the start
//! of the following display row.
use vstd::prelude::*;
use crate::buffer::{BufferSnapshot, clip_point_spec, valid_point};
use crate::point::{Point, WrapPoint, point_le, wrap_le};

verus! {

/// Whether a wrap width wraps at all (`None` and zero disable wrapping).
pub open spec fn wrapping(width: Option<u32>) -> bool {
    width is Some && width->0 > 0
}

/// The wrap width as an integer (meaningful when `wrapping(width)`).
pub open spec fn wrap_w(width: Option<u32>) -> int {
    width->0 as int
}

/// Number of soft wraps inserted into a row of length `len`.
pub open spec fn wraps_in_line(len: int, width: Option<u32>) -> int {
    if wrapping(width) && len > wrap_w(width) {
        (len - 1) / wrap_w(width)
    } else {
        0
    }
}

/// Number of display rows occupied by the buffer rows before row `r`.
pub open spec fn rows_before(lens: Seq<u32>, width: Option<u32>, r: int) -> int
    decreases r,
{
    if r <= 0 {
        0
    } else {
        rows_before(lens, width, r - 1) + wraps_in_line(lens[r - 1] as int, width) + 1
    }
}

/// Number of display rows of the whole buffer.
pub open spec fn total_rows(lens: Seq<u32>, width: Option<u32>) -> int {
    rows_before(lens, width, lens.len() as int)
}

/// The segment (0-based, within its buffer row) that holds column `col`.
pub open spec fn segment_of(len: int, width: Option<u32>, col: int) -> int {
    let k = wraps_in_line(len, width);
    if k > 0 {
        if col / wrap_w(width) < k { col / wrap_w(width) } else { k }
    } else {
        0
    }
}

/// Buffer column at which segment `s` starts.
pub open spec fn segment_start(width: Option<u32>, s: int) -> int {
    if s == 0 { 0 } else { s * wrap_w(width) }
}

/// The display position of a point inside the buffer.
pub open spec fn to_wrap_spec(lens: Seq<u32>, width: Option<u32>, p: Point) -> WrapPoint {
    let len = lens[p.row as int] as int;
    let s = segment_of(len, width, p.column as int);
    WrapPoint {
        row: (rows_before(lens, width, p.row as int) + s) as u32,
        column: (p.column - segment_start(width, s)) as u32,
    }
}

/// The last display position.
pub open spec fn max_wrap_point_spec(lens: Seq<u32>, width: Option<u32>) -> WrapPoint {
    to_wrap_spec(lens, width, Point { row: (lens.len() - 1) as u32, column: lens[lens.len() - 1] })
}

/// A display point clipped to the display: rows past the end go to the last
/// position; on the last row the column is clipped. Other rows keep their column.
pub open spec fn clip_wrap_spec(q: WrapPoint, max: WrapPoint) -> WrapPoint {
    if q.row > max.row {
        max
    } else if q.row == max.row {
        WrapPoint { row: q.row, column: if q.column < max.column { q.column } else { max.column } }
    } else {
        q
    }
}

/// Whether display row `dr` lies within buffer row `r`.
pub open spec fn display_row_in_line(lens: Seq<u32>, width: Option<u32>, r: int, dr: int) -> bool {
    rows_before(lens, width, r) <= dr < rows_before(lens, width, r + 1)
}

/// Buffer column of display column `c` on segment `s` of a row of length `len`.
/// A column past the end of a non-final segment maps to the start of the next segment.
pub open spec fn from_column(len: int, width: Option<u32>, s: int, c: int) -> int {
    if s < wraps_in_line(len, width) && c >= wrap_w(width) {
        (s + 1) * wrap_w(width)
    } else {
        segment_start(width, s) + c
    }
}

/// Length of segment `s` of a row of length `len`.
pub open spec fn segment_len(len: int, width: Option<u32>, s: int) -> int {
    if s < wraps_in_line(len, width) {
        wrap_w(width)
    } else {
        len - segment_start(width, s)
    }
}

/// The buffer row that display row `dr` belongs to.
pub open spec fn row_of(lens: Seq<u32>, width: Option<u32>, dr: int) -> int {
    choose|r: int| 0 <= r < lens.len() && display_row_in_line(lens, width, r, dr)
}

/// The buffer position of a display point, after clipping it to the display.
pub open spec fn from_wrap_spec(lens: Seq<u32>, width: Option<u32>, q: WrapPoint) -> Point {
    let qc = clip_wrap_spec(q, max_wrap_point_spec(lens, width));
    let r = row_of(lens, width, qc.row as int);
    Point {
        row: r as u32,
        column: from_column(lens[r] as int, width, qc.row - rows_before(lens, width, r), qc.column as int) as u32,
    }
}

/// Length of display row `dr`; zero past the last display row.
pub open spec fn display_line_len_spec(lens: Seq<u32>, width: Option<u32>, dr: int) -> int {
    if dr > max_wrap_point_spec(lens, width).row {
        0
    } else {
        let r = row_of(lens, width, dr);
        segment_len(lens[r] as int, width, dr - rows_before(lens, width, r))
    }
}

pub proof fn lemma_rows_before_step(lens: Seq<u32>, width: Option<u32>, r: int)
    requires
        0 <= r,
    ensures
        rows_before(lens, width, r + 1) == rows_before(lens, width, r) + wraps_in_line(lens[r] as int, width) + 1,
{
}

proof fn lemma_wraps_nonneg(len: int, width: Option<u32>)
    requires
        len >= 0,
    ensures
        wraps_in_line(len, width) >= 0,
{
    if wrapping(width) && len > wrap_w(width) {
        vstd::arithmetic::div_mod::lemma_div_pos_is_pos(len - 1, wrap_w(width));
    }
}

/// `i <= j` implies at least `j - i` display rows between the starts of rows `i` and `j`.
pub proof fn lemma_rows_before_mono(lens: Seq<u32>, width: Option<u32>, i: int, j: int)
    requires
        0 <= i <= j,
    ensures
        rows_before(lens, width, i) + (j - i) <= rows_before(lens, width, j),
    decreases j - i,
{
    if i < j {
        lemma_rows_before_mono(lens, width, i, j - 1);
        lemma_wraps_nonneg(lens[j - 1] as int, width);
    }
}

proof fn lemma_rows_before_nonneg(lens: Seq<u32>, width: Option<u32>, r: int)
    requires
        0 <= r,
    ensures
        rows_before(lens, width, r) >= r,
{
    lemma_rows_before_mono(lens, width, 0, r);
}

proof fn lemma_div_bounds(c: int, w: int)
    requires
        w > 0,
        c >= 0,
    ensures
        c / w >= 0,
        (c / w) * w <= c,
        c < (c / w) * w + w,
{
    vstd::arithmetic::div_mod::lemma_fundamental_div_mod(c, w);
    vstd::arithmetic::div_mod::lemma_mod_pos_bound(c, w);
    vstd::arithmetic::div_mod::lemma_div_pos_is_pos(c, w);
    vstd::arithmetic::mul::lemma_mul_is_commutative(w, c / w);
}

proof fn lemma_mul_le(a: int, b: int, w: int)
    by (nonlinear_arith)
    requires
        0 <= a <= b,
        w >= 0,
    ensures
        a * w <= b * w,
{
}

proof fn lemma_mul_succ(a: int, w: int)
    by (nonlinear_arith)
    ensures
        (a + 1) * w == a * w + w,
{
}

/// Facts on the wrap count of a wrapped row: at least one wrap, and the last
/// segment is non-empty and at most `w` long.
proof fn lemma_wraps_facts(len: int, width: Option<u32>)
    requires
        wrapping(width),
        len > wrap_w(width),
    ensures
        wraps_in_line(len, width) >= 1,
        wraps_in_line(len, width) * wrap_w(width) < len,
        len <= wraps_in_line(len, width) * wrap_w(width) + wrap_w(width),
{
    let w = wrap_w(width);
    let k = (len - 1) / w;
    lemma_div_bounds(len - 1, w);
    vstd::arithmetic::div_mod::lemma_div_is_ordered(w, len - 1, w);
    vstd::arithmetic::div_mod::lemma_div_basics(w);
}

/// Where a column lands within its segment.
proof fn lemma_segment_facts(len: int, width: Option<u32>, col: int)
    requires
        0 <= col <= len,
    ensures
        0 <= segment_of(len, width, col) <= wraps_in_line(len, width),
        0 <= segment_start(width, segment_of(len, width, col)) <= col,
        col - segment_start(width, segment_of(len, width, col)) <= segment_len(len, width, segment_of(len, width, col)),
        segment_of(len, width, col) < wraps_in_line(len, width) ==> col - segment_start(width, segment_of(len, width, col)) < wrap_w(width),
        wraps_in_line(len, width) > 0 ==> segment_start(width, segment_of(len, width, col)) == segment_of(len, width, col) * wrap_w(width),
{
    let k = wraps_in_line(len, width);
    lemma_wraps_nonneg(len, width);
    let s = segment_of(len, width, col);
    if k > 0 {
        let w = wrap_w(width);
        lemma_wraps_facts(len, width);
        lemma_div_bounds(col, w);
        let q = col / w;
        if q < k {
            assert(s == q);
            if s == 0 {
                assert(segment_start(width, s) == 0);
                assert(s * w == 0);
                assert(col < w);
            } else {
                assert(segment_start(width, s) == s * w);
            }
            assert(col - segment_start(width, s) < w);
            assert(segment_len(len, width, s) == w);
        } else {
            assert(s == k);
            lemma_mul_le(k, q, w);
            assert(segment_start(width, s) == k * w);
            assert(segment_len(len, width, s) == len - k * w);
        }
    } else {
        assert(s == 0);
        assert(segment_len(len, width, s) == len);
    }
}

/// Segment start of `s + 1` is one width past that of `s`.
proof fn lemma_segment_start_succ(width: Option<u32>, s: int)
    requires
        s >= 0,
    ensures
        segment_start(width, s + 1) == segment_start(width, s) + wrap_w(width),
{
    lemma_mul_succ(s, wrap_w(width));
}

/// Segment starts grow with the segment index.
proof fn lemma_segment_start_mono(len: int, width: Option<u32>, s: int)
    requires
        0 <= s <= wraps_in_line(len, width),
        len >= 0,
    ensures
        0 <= segment_start(width, s) <= len,
        s < wraps_in_line(len, width) ==> segment_start(width, s) + wrap_w(width) <= segment_start(width, wraps_in_line(len, width)),
        s < wraps_in_line(len, width) ==> segment_start(width, s) + wrap_w(width) < len,
{
    let k = wraps_in_line(len, width);
    if k > 0 {
        let w = wrap_w(width);
        lemma_wraps_facts(len, width);
        lemma_mul_le(s, k, w);
        if s < k {
            lemma_mul_le(s + 1, k, w);
            lemma_mul_succ(s, w);
        }
    }
}

/// Buffer positions map one-to-one onto display positions:
/// converting a point inside the buffer to the display and back yields the same point.
pub proof fn lemma_round_trip(lens: Seq<u32>, width: Option<u32>, p: Point)
    requires
        valid_point(lens, p),
        total_rows(lens, width) <= u32::MAX,
    ensures
        display_row_in_line(lens, width, p.row as int, to_wrap_spec(lens, width, p).row as int),
        from_column(
            lens[p.row as int] as int,
            width,
            to_wrap_spec(lens, width, p).row - rows_before(lens, width, p.row as int),
            to_wrap_spec(lens, width, p).column as int,
        ) == p.column,
{
    let len = lens[p.row as int] as int;
    let s = segment_of(len, width, p.column as int);
    lemma_segment_facts(len, width, p.column as int);
    lemma_rows_before_step(lens, width, p.row as int);
    lemma_rows_before_mono(lens, width, p.row + 1, lens.len() as int);
    lemma_rows_before_nonneg(lens, width, p.row as int);
    let w = to_wrap_spec(lens, width, p);
    assert(w.row == rows_before(lens, width, p.row as int) + s);
    assert(w.column == p.column - segment_start(width, s));
}

/// Whether display row `dr` lies in buffer row `r` determines `r`.
pub proof fn lemma_display_row_unique(lens: Seq<u32>, width: Option<u32>, r1: int, r2: int, dr: int)
    requires
        0 <= r1,
        0 <= r2,
        display_row_in_line(lens, width, r1, dr),
        display_row_in_line(lens, width, r2, dr),
    ensures
        r1 == r2,
{
    if r1 < r2 {
        lemma_rows_before_mono(lens, width, r1 + 1, r2);
    } else if r2 < r1 {
        lemma_rows_before_mono(lens, width, r2 + 1, r1);
    }
}

/// The last display position is the display position of the end of the buffer,
/// on the last display row.
pub proof fn lemma_max_point(lens: Seq<u32>, width: Option<u32>)
    requires
        lens.len() >= 1,
        total_rows(lens, width) <= u32::MAX,
    ensures
        max_wrap_point_spec(lens, width).row == total_rows(lens, width) - 1,
        max_wrap_point_spec(lens, width).column == segment_len(
            lens[lens.len() - 1] as int,
            width,
            wraps_in_line(lens[lens.len() - 1] as int, width),
        ),
        segment_of(lens[lens.len() - 1] as int, width, lens[lens.len() - 1] as int)
            == wraps_in_line(lens[lens.len() - 1] as int, width),
{
    let n = lens.len() as int;
    let len = lens[n - 1] as int;
    let k = wraps_in_line(len, width);
    lemma_segment_facts(len, width, len);
    if k > 0 {
        let w = wrap_w(width);
        vstd::arithmetic::div_mod::lemma_div_is_ordered(len - 1, len, w);
        assert(segment_of(len, width, len) == k);
    }
    lemma_rows_before_step(lens, width, n - 1);
    lemma_rows_before_nonneg(lens, width, n - 1);
}

/// Round trip from the buffer: every point inside the buffer maps to a display
/// point that lies inside the display, belongs to the point's own buffer row,
/// and maps back to the same column.
pub proof fn law_wrap_round_trip(lens: Seq<u32>, width: Option<u32>, p: Point)
    requires
        lens.len() >= 1,
        total_rows(lens, width) <= u32::MAX,
        valid_point(lens, p),
    ensures
        clip_wrap_spec(to_wrap_spec(lens, width, p), max_wrap_point_spec(lens, width)) == to_wrap_spec(lens, width, p),
        display_row_in_line(lens, width, p.row as int, to_wrap_spec(lens, width, p).row as int),
        forall|r: int|
            0 <= r < lens.len() && display_row_in_line(lens, width, r, to_wrap_spec(lens, width, p).row as int) ==> r == p.row
                && from_column(
                lens[r] as int,
                width,
                to_wrap_spec(lens, width, p).row - rows_before(lens, width, r),
                to_wrap_spec(lens, width, p).column as int,
            ) == p.column,
        from_wrap_spec(lens, width, to_wrap_spec(lens, width, p)) == p,
{
    lemma_round_trip(lens, width, p);
    let q = to_wrap_spec(lens, width, p);
    let n = lens.len() as int;
    lemma_max_point(lens, width);
    let max = max_wrap_point_spec(lens, width);
    lemma_rows_before_mono(lens, width, p.row + 1, n);
    if q.row == max.row {
        // q lies on the last display row, so p lies on the last segment of the last row
        if (p.row as int) < n - 1 {
            lemma_rows_before_step(lens, width, n - 1);
            lemma_rows_before_mono(lens, width, p.row + 1, n - 1);
        }
        assert(p.row == n - 1);
        let len = lens[n - 1] as int;
        lemma_segment_facts(len, width, p.column as int);
        lemma_segment_facts(len, width, len);
        lemma_rows_before_step(lens, width, n - 1);
    }
    assert forall|r: int|
        0 <= r < lens.len() && display_row_in_line(lens, width, r, q.row as int) implies r == p.row by {
        lemma_display_row_unique(lens, width, r, p.row as int, q.row as int);
    }
    let r0 = row_of(lens, width, q.row as int);
    assert(0 <= r0 < lens.len() && display_row_in_line(lens, width, r0, q.row as int));
}

/// Without wrapping (no width, or width zero) the display is the buffer itself.
pub proof fn law_unwrapped_is_identity(lens: Seq<u32>, width: Option<u32>, p: Point)
    requires
        !wrapping(width),
        valid_point(lens, p),
        total_rows(lens, width) <= u32::MAX,
    ensures
        to_wrap_spec(lens, width, p) == (WrapPoint { row: p.row, column: p.column }),
        total_rows(lens, width) == lens.len(),
{
    assert forall|r: int| 0 <= r <= lens.len() implies #[trigger] rows_before(lens, width, r) == r by {
        lemma_rows_before_is_r(lens, width, r);
    }
}

proof fn lemma_rows_before_is_r(lens: Seq<u32>, width: Option<u32>, r: int)
    requires
        !wrapping(width),
        0 <= r,
    ensures
        rows_before(lens, width, r) == r,
    decreases r,
{
    if r > 0 {
        lemma_rows_before_is_r(lens, width, r - 1);
    }
}

/// Converting buffer points to the display preserves their order.
pub proof fn law_to_wrap_monotone(lens: Seq<u32>, width: Option<u32>, p1: Point, p2: Point)
    requires
        total_rows(lens, width) <= u32::MAX,
        valid_point(lens, p1),
        valid_point(lens, p2),
        point_le(p1, p2),
    ensures
        wrap_le(to_wrap_spec(lens, width, p1), to_wrap_spec(lens, width, p2)),
{
    lemma_round_trip(lens, width, p1);
    lemma_round_trip(lens, width, p2);
    let n = lens.len() as int;
    lemma_rows_before_mono(lens, width, p1.row + 1, n);
    lemma_rows_before_mono(lens, width, p2.row + 1, n);
    lemma_rows_before_step(lens, width, p1.row as int);
    lemma_rows_before_step(lens, width, p2.row as int);
    lemma_rows_before_nonneg(lens, width, p1.row as int);
    lemma_rows_before_nonneg(lens, width, p2.row as int);
    let q1 = to_wrap_spec(lens, width, p1);
    let q2 = to_wrap_spec(lens, width, p2);
    let len1 = lens[p1.row as int] as int;
    let len2 = lens[p2.row as int] as int;
    let s1 = segment_of(len1, width, p1.column as int);
    let s2 = segment_of(len2, width, p2.column as int);
    lemma_segment_facts(len1, width, p1.column as int);
    lemma_segment_facts(len2, width, p2.column as int);
    assert(q1.row == rows_before(lens, width, p1.row as int) + s1);
    assert(q2.row == rows_before(lens, width, p2.row as int) + s2);
    if p1.row < p2.row {
        lemma_rows_before_mono(lens, width, p1.row + 1, p2.row as int);
        assert(q1.row < q2.row);
    } else {
        assert(p1.row == p2.row);
        if wraps_in_line(len1, width) > 0 {
            let w = wrap_w(width);
            vstd::arithmetic::div_mod::lemma_div_is_ordered(p1.column as int, p2.column as int, w);
            assert(s1 <= s2);
            if s1 == s2 {
                assert(q1.column <= q2.column);
            } else {
                assert(q1.row < q2.row);
            }
        } else {
            assert(s1 == 0 && s2 == 0);
            assert(q1.column == p1.column);
            assert(q2.column == p2.column);
        }
    }
}

/// Round trip from the display: a display point that lies on a display row
/// before that row's end (or at the end of the row holding the end of a buffer
/// row) maps to a buffer point that maps back to it.
pub proof fn law_display_round_trip(lens: Seq<u32>, width: Option<u32>, r: int, q: WrapPoint)
    requires
        total_rows(lens, width) <= u32::MAX,
        0 <= r < lens.len(),
        display_row_in_line(lens, width, r, q.row as int),
        ({
            let s = q.row - rows_before(lens, width, r);
            let len = lens[r] as int;
            if s < wraps_in_line(len, width) {
                q.column < wrap_w(width)
            } else {
                q.column <= segment_len(len, width, s)
            }
        }),
    ensures
        ({
            let p = Point {
                row: r as u32,
                column: from_column(lens[r] as int, width, q.row - rows_before(lens, width, r), q.column as int) as u32,
            };
            valid_point(lens, p) && to_wrap_spec(lens, width, p) == q
        }),
{
    let len = lens[r] as int;
    let s = q.row - rows_before(lens, width, r);
    let k = wraps_in_line(len, width);
    lemma_rows_before_step(lens, width, r);
    lemma_segment_start_mono(len, width, s);
    let col = from_column(len, width, s, q.column as int);
    assert(col == segment_start(width, s) + q.column);
    if k > 0 {
        let w = wrap_w(width);
        lemma_wraps_facts(len, width);
        // the column lands in segment s
        if s == 0 {
            assert(segment_start(width, s) == 0);
        }
        assert(segment_start(width, s) == s * w) by {
            if s == 0 {
                assert(s * w == 0);
            }
        }
        lemma_mul_succ(s, w);
        if s < k {
            vstd::arithmetic::div_mod::lemma_fundamental_div_mod_converse(col, w, s, q.column as int);
            assert(col / w == s);
        } else {
            assert(q.column <= len - s * w);
            if q.column < w {
                vstd::arithmetic::div_mod::lemma_fundamental_div_mod_converse(col, w, s, q.column as int);
                assert(col / w == s);
            } else {
                // the end of a last segment that is exactly `w` long
                assert(q.column == w);
                vstd::arithmetic::div_mod::lemma_fundamental_div_mod_converse(col, w, s + 1, 0);
            }
        }
    }
    lemma_rows_before_nonneg(lens, width, lens.len() as int);
    let p = Point { row: r as u32, column: col as u32 };
    lemma_segment_facts(len, width, col);
}

/// A display point whose column does not pass the end of its display row
/// converts back to a buffer column within the buffer row.
pub proof fn lemma_from_column_in_row(lens: Seq<u32>, width: Option<u32>, r: int, dr: int, c: int)
    requires
        0 <= r < lens.len(),
        display_row_in_line(lens, width, r, dr),
        0 <= c <= segment_len(lens[r] as int, width, dr - rows_before(lens, width, r)),
    ensures
        0 <= from_column(lens[r] as int, width, dr - rows_before(lens, width, r), c) <= lens[r],
{
    let len = lens[r] as int;
    let s = dr - rows_before(lens, width, r);
    lemma_rows_before_step(lens, width, r);
    lemma_segment_start_mono(len, width, s);
    if s < wraps_in_line(len, width) {
        lemma_segment_start_succ(width, s);
    }
}

/// Number of soft wraps in a row of length `len`.
pub fn wraps_of(len: u32, width: Option<u32>) -> (k: u32)
    ensures
        k == wraps_in_line(len as int, width),
{
    match width {
        Some(w) => {
            if w > 0 && len > w {
                proof {
                    lemma_div_bounds(len - 1, w as int);
                }
                (len - 1) / w
            } else {
                0
            }
        },
        None => 0,
    }
}

/// Whether the display of `buffer` at `wrap_width` has at most `u32::MAX` rows.
pub fn display_rows_fit(buffer: &BufferSnapshot, wrap_width: Option<u32>) -> (b: bool)
    requires
        buffer.wf(),
    ensures
        b == (total_rows(buffer@, wrap_width) <= u32::MAX),
{
    let n = buffer.row_count();
    let mut total: u64 = 0;
    let mut r: u32 = 0;
    while r < n
        invariant
            n == buffer@.len(),
            buffer.wf(),
            r <= n,
            total == rows_before(buffer@, wrap_width, r as int),
            total <= u32::MAX,
        decreases n - r,
    {
        let k = wraps_of(buffer.line_len(r), wrap_width);
        let next = total + k as u64 + 1;
        proof {
            lemma_rows_before_step(buffer@, wrap_width, r as int);
        }
        if next > u32::MAX as u64 {
            proof {
                lemma_rows_before_mono(buffer@, wrap_width, r + 1, n as int);
            }
            return false;
        }
        total = next;
        r = r + 1;
    }
    true
}

/// A display point no further right than the end of its display row
/// converts back within `u32` columns.
pub proof fn lemma_fits_within_row(lens: Seq<u32>, width: Option<u32>, q: WrapPoint)
    requires
        q.column <= display_line_len_spec(lens, width, q.row as int),
        lens.len() >= 1,
        total_rows(lens, width) <= u32::MAX,
    ensures
        ({
            let qc = clip_wrap_spec(q, max_wrap_point_spec(lens, width));
            forall|r: int|
                0 <= r < lens.len() && display_row_in_line(lens, width, r, qc.row as int) ==> from_column(
                    lens[r] as int,
                    width,
                    qc.row - rows_before(lens, width, r),
                    qc.column as int,
                ) <= u32::MAX
        }),
{
    let max = max_wrap_point_spec(lens, width);
    let qc = clip_wrap_spec(q, max);
    let n = lens.len() as int;
    lemma_max_point(lens, width);
    lemma_rows_before_step(lens, width, n - 1);
    assert(display_row_in_line(lens, width, n - 1, max.row as int)) by {
        lemma_rows_before_mono(lens, width, 0, n - 1);
    }
    assert forall|r: int|
        0 <= r < lens.len() && display_row_in_line(lens, width, r, qc.row as int) implies from_column(
            lens[r] as int,
            width,
            qc.row - rows_before(lens, width, r),
            qc.column as int,
        ) <= u32::MAX by {
        let r0 = row_of(lens, width, qc.row as int);
        if q.row >= max.row {
            lemma_display_row_unique(lens, width, r, n - 1, qc.row as int);
            lemma_display_row_unique(lens, width, r0, n - 1, qc.row as int);
        } else {
            lemma_display_row_unique(lens, width, r, r0, qc.row as int);
        }
        lemma_from_column_in_row(lens, width, r, qc.row as int, qc.column as int);
    }
}

/// A snapshot of the soft-wrapped display of a buffer.
pub struct WrapSnapshot {
    buffer: BufferSnapshot,
    wrap_width: Option<u32>,
    row_starts: Vec<u32>,
    max: WrapPoint,
}

impl WrapSnapshot {
    #[verifier::type_invariant]
    spec fn inv(self) -> bool {
        &&& self.buffer.wf()
        &&& total_rows(self.buffer@, self.wrap_width) <= u32::MAX
        &&& self.row_starts@.len() == self.buffer@.len()
        &&& forall|r: int| 0 <= r < self.row_starts@.len() ==> #[trigger] self.row_starts@[r] == rows_before(self.buffer@, self.wrap_width, r)
        &&& self.max == max_wrap_point_spec(self.buffer@, self.wrap_width)
    }

    /// Row lengths of the wrapped buffer.
    pub closed spec fn lens(&self) -> Seq<u32> {
        self.buffer@
    }

    /// The wrap width of this snapshot.
    pub closed spec fn width(&self) -> Option<u32> {
        self.wrap_width
    }

    /// The display position of `p` after clipping it into the buffer.
    pub open spec fn to_wrap(&self, p: Point) -> WrapPoint {
        to_wrap_spec(self.lens(), self.width(), clip_point_spec(self.lens(), p))
    }

    /// The last display position.
    pub open spec fn max_spec(&self) -> WrapPoint {
        max_wrap_point_spec(self.lens(), self.width())
    }

    /// Whether converting `q` back to the buffer stays within `u32` columns.
    pub open spec fn from_wrap_fits(&self, q: WrapPoint) -> bool {
        let qc = clip_wrap_spec(q, self.max_spec());
        forall|r: int|
            0 <= r < self.lens().len() && display_row_in_line(self.lens(), self.width(), r, qc.row as int) ==> from_column(
                self.lens()[r] as int,
                self.width(),
                qc.row - rows_before(self.lens(), self.width(), r),
                qc.column as int,
            ) <= u32::MAX
    }

    /// Builds the snapshot of `buffer` wrapped at `wrap_width`.
    pub fn build(buffer: BufferSnapshot, wrap_width: Option<u32>) -> (s: WrapSnapshot)
        requires
            buffer.wf(),
            total_rows(buffer@, wrap_width) <= u32::MAX,
        ensures
            s.lens() == buffer@,
            s.width() == wrap_width,
    {
        let n = buffer.row_count();
        let mut row_starts: Vec<u32> = Vec::new();
        let mut acc: u32 = 0;
        let mut r: u32 = 0;
        while r < n
            invariant
                n == buffer@.len(),
                buffer.wf(),
                total_rows(buffer@, wrap_width) <= u32::MAX,
                r <= n,
                row_starts@.len() == r,
                acc == rows_before(buffer@, wrap_width, r as int),
                forall|j: int| 0 <= j < r ==> #[trigger] row_starts@[j] == rows_before(buffer@, wrap_width, j),
            decreases n - r,
        {
            row_starts.push(acc);
            let k = wraps_of(buffer.line_len(r), wrap_width);
            proof {
                lemma_rows_before_step(buffer@, wrap_width, r as int);
                lemma_rows_before_mono(buffer@, wrap_width, r + 1, n as int);
            }
            acc = acc + k + 1;
            r = r + 1;
        }
        let bmax = buffer.max_point();
        let last_len = bmax.column;
        let k = wraps_of(last_len, wrap_width);
        let last_start = row_starts[(n - 1) as usize];
        proof {
            lemma_max_point(buffer@, wrap_width);
            lemma_segment_facts(last_len as int, wrap_width, last_len as int);
            lemma_rows_before_nonneg(buffer@, wrap_width, n - 1);
        }
        let max = if k > 0 {
            let w = wrap_width.unwrap();
            WrapPoint { row: last_start + k, column: last_len - k * w }
        } else {
            WrapPoint { row: last_start, column: last_len }
        };
        WrapSnapshot { buffer, wrap_width, row_starts, max }
    }

    /// Number of display rows.
    pub fn row_count(&self) -> (n: u32)
        ensures
            n == total_rows(self.lens(), self.width()),
            n == self.max_spec().row + 1,
    {
        proof {
            use_type_invariant(self);
            lemma_max_point(self.buffer@, self.wrap_width);
        }
        self.max.row + 1
    }

    /// The last display position.
    pub fn max_point(&self) -> (p: WrapPoint)
        ensures
            p == self.max_spec(),
    {
        proof {
            use_type_invariant(self);
        }
        self.max
    }

    /// The row lengths of the wrapped buffer.
    pub fn buffer_snapshot(&self) -> (b: &BufferSnapshot)
        ensures
            b@ == self.lens(),
            b.wf(),
    {
        proof {
            use_type_invariant(self);
        }
        &self.buffer
    }

    /// The wrap width.
    pub fn wrap_width(&self) -> (w: Option<u32>)
        ensures
            w == self.width(),
    {
        self.wrap_width
    }

    /// The buffer row that display row `dr` belongs to.
    fn find_row(&self, dr: u32) -> (r: usize)
        requires
            dr <= self.max_spec().row,
        ensures
            r < self.lens().len(),
            display_row_in_line(self.lens(), self.width(), r as int, dr as int),
    {
        proof {
            use_type_invariant(self);
            lemma_max_point(self.buffer@, self.wrap_width);
        }
        let n = self.row_starts.len();
        let mut lo: usize = 0;
        let mut hi: usize = n;
        proof {
            assert(self.row_starts@[0] == rows_before(self.buffer@, self.wrap_width, 0));
        }
        while hi - lo > 1
            invariant
                n == self.row_starts@.len(),
                n == self.buffer@.len(),
                0 <= lo < hi <= n,
                self.row_starts@[lo as int] <= dr,
                hi < n ==> self.row_starts@[hi as int] > dr,
                forall|r: int| 0 <= r < self.row_starts@.len() ==> #[trigger] self.row_starts@[r] == rows_before(self.buffer@, self.wrap_width, r),
            decreases hi - lo,
        {
            let mid = lo + (hi - lo) / 2;
            if self.row_starts[mid] <= dr {
                lo = mid;
            } else {
                hi = mid;
            }
        }
        proof {
            assert(self.row_starts@[lo as int] == rows_before(self.buffer@, self.wrap_width, lo as int));
            if lo + 1 < n {
                assert(self.row_starts@[lo + 1] == rows_before(self.buffer@, self.wrap_width, lo + 1));
            }
        }
        lo
    }

    /// Clips a buffer point into the buffer.
    pub fn clip_buffer_point(&self, point: Point) -> (p: Point)
        ensures
            p == clip_point_spec(self.lens(), point),
    {
        proof {
            use_type_invariant(self);
        }
        self.buffer.clip_point(point)
    }

    /// Clips a display point: rows past the end go to the last position, and the
    /// column is clipped on the last row.
    pub fn clip_wrap_point(&self, point: WrapPoint) -> (q: WrapPoint)
        ensures
            q == clip_wrap_spec(point, self.max_spec()),
    {
        proof {
            use_type_invariant(self);
        }
        let max = self.max;
        if point.row > max.row {
            max
        } else if point.row == max.row {
            WrapPoint { row: point.row, column: if point.column < max.column { point.column } else { max.column } }
        } else {
            point
        }
    }

    /// Maps a buffer point (clipped into the buffer) to its display position.
    pub fn to_wrap_point(&self, point: Point) -> (q: WrapPoint)
        ensures
            q == self.to_wrap(point),
    {
        proof {
            use_type_invariant(self);
        }
        let p = self.buffer.clip_point(point);
        let len = self.buffer.line_len(p.row);
        let k = wraps_of(len, self.wrap_width);
        let start = self.row_starts[p.row as usize];
        proof {
            let n = self.buffer@.len() as int;
            lemma_segment_facts(len as int, self.wrap_width, p.column as int);
            lemma_rows_before_step(self.buffer@, self.wrap_width, p.row as int);
            lemma_rows_before_mono(self.buffer@, self.wrap_width, p.row + 1, n);
            assert(self.row_starts@[p.row as int] == rows_before(self.buffer@, self.wrap_width, p.row as int));
        }
        if k > 0 {
            let w = self.wrap_width.unwrap();
            let q = p.column / w;
            let s = if q < k { q } else { k };
            WrapPoint { row: start + s, column: p.column - s * w }
        } else {
            WrapPoint { row: start, column: p.column }
        }
    }

    /// Maps a display point (clipped to the display) back to the buffer. A
    /// column past the end of its display row is carried over to the buffer
    /// column, which must stay within `u32`; a column within its row always
    /// does.
    pub fn from_wrap_point(&self, point: WrapPoint) -> (p: Point)
        requires
            point.column <= display_line_len_spec(self.lens(), self.width(), point.row as int)
                || self.from_wrap_fits(point),
        ensures
            p.row < self.lens().len(),
            display_row_in_line(self.lens(), self.width(), p.row as int, clip_wrap_spec(point, self.max_spec()).row as int),
            p.column == from_column(
                self.lens()[p.row as int] as int,
                self.width(),
                clip_wrap_spec(point, self.max_spec()).row - rows_before(self.lens(), self.width(), p.row as int),
                clip_wrap_spec(point, self.max_spec()).column as int,
            ),
            p == from_wrap_spec(self.lens(), self.width(), point),
    {
        proof {
            use_type_invariant(self);
            if !self.from_wrap_fits(point) {
                lemma_fits_within_row(self.buffer@, self.wrap_width, point);
            }
        }
        let q = self.clip_wrap_point(point);
        let r = self.find_row(q.row);
        let s = q.row - self.row_starts[r];
        let len = self.buffer.line_len(r as u32);
        let k = wraps_of(len, self.wrap_width);
        proof {
            assert(self.row_starts@[r as int] == rows_before(self.buffer@, self.wrap_width, r as int));
            lemma_rows_before_step(self.buffer@, self.wrap_width, r as int);
            assert(s <= k);
            lemma_segment_start_mono(len as int, self.wrap_width, s as int);
            let r2 = row_of(self.buffer@, self.wrap_width, q.row as int);
            lemma_display_row_unique(self.buffer@, self.wrap_width, r2, r as int, q.row as int);
        }
        if k > 0 {
            let w = self.wrap_width.unwrap();
            proof {
                if s == 0 {
                    assert(s * w == 0);
                }
                if s < k {
                    lemma_mul_succ(s as int, w as int);
                }
            }
            if s < k && q.column >= w {
                Point { row: r as u32, column: (s + 1) * w }
            } else {
                Point { row: r as u32, column: s * w + q.column }
            }
        } else {
            Point { row: r as u32, column: q.column }
        }
    }

    /// Length of display row `display_row`; zero past the last row.
    pub fn line_len(&self, display_row: u32) -> (l: u32)
        ensures
            display_row > self.max_spec().row ==> l == 0,
            forall|r: int|
                0 <= r < self.lens().len() && display_row_in_line(self.lens(), self.width(), r, display_row as int)
                    ==> l == segment_len(self.lens()[r] as int, self.width(), display_row - rows_before(self.lens(), self.width(), r)),
            l == display_line_len_spec(self.lens(), self.width(), display_row as int),
    {
        proof {
            use_type_invariant(self);
            lemma_max_point(self.buffer@, self.wrap_width);
        }
        if display_row > self.max.row {
            proof {
                assert forall|r: int|
                    0 <= r < self.lens().len() && display_row_in_line(self.lens(), self.width(), r, display_row as int)
                    implies false by {
                    lemma_rows_before_mono(self.buffer@, self.wrap_width, r + 1, self.buffer@.len() as int);
                }
            }
            return 0;
        }
        let r = self.find_row(display_row);
        let s = display_row - self.row_starts[r];
        let len = self.buffer.line_len(r as u32);
        let k = wraps_of(len, self.wrap_width);
        proof {
            assert(self.row_starts@[r as int] == rows_before(self.buffer@, self.wrap_width, r as int));
            lemma_rows_before_step(self.buffer@, self.wrap_width, r as int);
            lemma_segment_start_mono(len as int, self.wrap_width, s as int);
            assert forall|r2: int|
                0 <= r2 < self.lens().len() && display_row_in_line(self.lens(), self.width(), r2, display_row as int)
                implies r2 == r by {
                lemma_display_row_unique(self.buffer@, self.wrap_width, r2, r as int, display_row as int);
            }
            let r3 = row_of(self.buffer@, self.wrap_width, display_row as int);
            lemma_display_row_unique(self.buffer@, self.wrap_width, r3, r as int, display_row as int);
        }
        if s < k {
            self.wrap_width.unwrap()
        } else if k > 0 {
            let w = self.wrap_width.unwrap();
            proof {
                assert(segment_start(self.wrap_width, s as int) == s * w);
            }
            len - s * w
        } else {
            proof {
                assert(s == 0);
            }
            len
        }
    }
}

impl Clone for WrapSnapshot {
    fn clone(&self) -> (c: Self)
        ensures
            c.lens() == self.lens(),
            c.width() == self.width(),
    {
        proof {
            use_type_invariant(self);
        }
        WrapSnapshot {
            buffer: self.buffer.clone(),
            wrap_width: self.wrap_width,
            row_starts: self.row_starts.clone(),
            max: self.max,
        }
    }
}

/// Keeps the wrapped display of a buffer in step with its wrap width.
pub struct WrapMap {
    wrap_width: Option<u32>,
    snapshot: WrapSnapshot,
}

impl WrapMap {
    #[verifier::type_invariant]
    spec fn inv(self) -> bool {
        self.snapshot.width() == self.wrap_width
    }

    /// The current wrap width.
    pub closed spec fn width(&self) -> Option<u32> {
        self.wrap_width
    }

    /// Row lengths of the wrapped buffer.
    pub closed spec fn lens(&self) -> Seq<u32> {
        self.snapshot.lens()
    }

    /// Wraps `buffer` at `wrap_width`.
    pub fn new(buffer: BufferSnapshot, wrap_width: Option<u32>) -> (m: WrapMap)
        requires
            buffer.wf(),
            total_rows(buffer@, wrap_width) <= u32::MAX,
        ensures
            m.lens() == buffer@,
            m.width() == wrap_width,
    {
        WrapMap { wrap_width, snapshot: WrapSnapshot::build(buffer, wrap_width) }
    }

    /// Rewraps a new buffer snapshot at the current width.
    pub fn sync(&mut self, buffer: BufferSnapshot)
        requires
            buffer.wf(),
            total_rows(buffer@, old(self).width()) <= u32::MAX,
        ensures
            final(self).lens() == buffer@,
            final(self).width() == old(self).width(),
    {
        self.snapshot = WrapSnapshot::build(buffer, self.wrap_width);
    }

    /// A snapshot of the wrapped display.
    pub fn snapshot(&self) -> (s: WrapSnapshot)
        ensures
            s.lens() == self.lens(),
            s.width() == self.width(),
    {
        proof {
            use_type_invariant(self);
        }
        self.snapshot.clone()
    }

    /// Changes the wrap width, rewrapping when it differs.
    pub fn set_wrap_width(&mut self, wrap_width: Option<u32>)
        requires
            total_rows(old(self).lens(), wrap_width) <= u32::MAX,
        ensures
            final(self).width() == wrap_width,
            final(self).lens() == old(self).lens(),
    {
        proof {
            use_type_invariant(&*self);
        }
        if self.wrap_width != wrap_width {
            let buffer = self.snapshot.buffer_snapshot().clone();
            *self = WrapMap { wrap_width, snapshot: WrapSnapshot::build(buffer, wrap_width) };
        }
    }
}

} // verus!
