//! The colours of the text area's cells: search matches, selections, the
//! cursor and the line-wise visual mode over the base colours of the text.
use vstd::prelude::*;
use crate::actions::Mode;
use crate::colorscheme::Rgb;
use crate::display_map::{DisplayPoint, DisplaySnapshot};
use crate::document::TextRows;
use crate::point::WrapPoint;
use crate::search::{byte_offset, char_width, lemma_offset_bound, lemma_offset_step};
use crate::selections::is_char_start;
use crate::text_util::str_to_chars;
use vstd::utf8::encode_utf8;
use crate::selections::{selected_from, SelectionCollection};
use crate::wrap_map::from_wrap_spec;

verus! {

/// The index of the search match that column `column` is checked against:
/// from `idx` on, past every match that ends at or before the column.
pub open spec fn advance_spec(ranges: Seq<(usize, usize)>, idx: int, column: int) -> int
    decreases ranges.len() - idx,
{
    if idx < ranges.len() && column >= ranges[idx].1 {
        advance_spec(ranges, idx + 1, column)
    } else {
        idx
    }
}

/// The match index after the columns `0..=column` have been walked in order.
pub open spec fn match_index(ranges: Seq<(usize, usize)>, column: int) -> int
    decreases column + 1,
{
    if column < 0 {
        0
    } else {
        advance_spec(ranges, match_index(ranges, column - 1), column)
    }
}

/// Whether column `column` lies in the match at `idx`, both ends counted.
pub open spec fn in_match_spec(ranges: Seq<(usize, usize)>, idx: int, column: int) -> bool {
    0 <= idx < ranges.len() && ranges[idx].0 <= column <= ranges[idx].1
}

/// Whether column `column` of a row is shown as a search match, the row's
/// matches given as ranges of character columns.
pub open spec fn column_in_match(ranges: Seq<(usize, usize)>, column: int) -> bool {
    in_match_spec(ranges, match_index(ranges, column), column)
}

/// The number of characters of `s` among the first `i` that start before
/// byte `b`: for a byte where a character starts, that character's column.
pub open spec fn chars_before(s: Seq<char>, b: int, i: int) -> int
    decreases i,
{
    if i <= 0 {
        0
    } else {
        chars_before(s, b, i - 1) + if byte_offset(s, i - 1) < b { 1int } else { 0int }
    }
}

/// The character columns of matches given by byte offset and byte length:
/// each becomes the columns of its first byte and of the byte just past it.
pub open spec fn match_char_ranges_spec(s: Seq<char>, matches: Seq<(usize, usize)>) -> Seq<(usize, usize)> {
    matches.map_values(|m: (usize, usize)| (chars_before(s, m.0 as int, s.len() as int) as usize, chars_before(
        s,
        m.0 + m.1,
        s.len() as int,
    ) as usize))
}

/// Turns search matches, given by byte offset and byte length in `text`,
/// into ranges of character columns; see [`match_char_ranges_spec`]. Both
/// ends of each match must start characters, as the matches of a search do.
pub fn match_char_ranges(text: &str, matches: &Vec<(usize, usize)>) -> (r: Vec<(usize, usize)>)
    requires
        encode_utf8(text@).len() <= usize::MAX,
        forall|i: int|
            0 <= i < matches@.len() ==> is_char_start(text@, (#[trigger] matches@[i]).0 as int) && is_char_start(
                text@,
                matches@[i].0 + matches@[i].1,
            ),
    ensures
        r@ == match_char_ranges_spec(text@, matches@),
{
    let chars = str_to_chars(text);
    let n = chars.len();
    let mut r: Vec<(usize, usize)> = Vec::new();
    let mut k: usize = 0;
    while k < matches.len()
        invariant
            chars@ == text@,
            n == text@.len(),
            encode_utf8(text@).len() <= usize::MAX,
            k <= matches@.len(),
            r@ == match_char_ranges_spec(text@, matches@.take(k as int)),
            forall|i: int|
                0 <= i < matches@.len() ==> is_char_start(text@, (#[trigger] matches@[i]).0 as int) && is_char_start(
                    text@,
                    matches@[i].0 + matches@[i].1,
                ),
        decreases matches@.len() - k,
    {
        let (start, len) = matches[k];
        proof {
            let m = matches@[k as int];
            assert(is_char_start(text@, m.0 + m.1));
            let j = choose|j: int| 0 <= j <= text@.len() && byte_offset(text@, j) == m.0 + m.1;
            lemma_offset_bound(text@, j);
        }
        let a = count_before(&chars, start);
        let end = start + len;
        let b = count_before(&chars, end);
        proof {
            assert(matches@.take(k + 1) =~= matches@.take(k as int).push(matches@[k as int]));
        }
        r.push((a, b));
        k = k + 1;
        proof {
            assert(r@ =~= match_char_ranges_spec(text@, matches@.take(k as int)));
        }
    }
    proof {
        assert(matches@.take(k as int) =~= matches@);
    }
    r
}

/// The number of characters of `chars` that start before byte `b`.
fn count_before(chars: &Vec<char>, b: usize) -> (c: usize)
    requires
        encode_utf8(chars@).len() <= usize::MAX,
    ensures
        c == chars_before(chars@, b as int, chars@.len() as int),
{
    let n = chars.len();
    let mut i: usize = 0;
    let mut off: usize = 0;
    let mut count: usize = 0;
    proof {
        assert(chars@.subrange(0, 0) =~= Seq::<char>::empty());
        assert(encode_utf8(Seq::<char>::empty()) =~= Seq::<u8>::empty());
    }
    while i < n
        invariant
            n == chars@.len(),
            encode_utf8(chars@).len() <= usize::MAX,
            i <= n,
            off == byte_offset(chars@, i as int),
            count == chars_before(chars@, b as int, i as int),
            count <= i,
        decreases n - i,
    {
        proof {
            lemma_offset_step(chars@, i as int);
            lemma_offset_bound(chars@, i + 1);
        }
        if off < b {
            count = count + 1;
        }
        off = off + char_width(chars[i]);
        i = i + 1;
    }
    count
}

/// The line number that the gutter shows beside display row `row` after
/// display row `row - 1`: the one-based buffer row where the buffer row
/// changes (and on the first row shown), nothing on a wrapped continuation.
pub open spec fn gutter_label(snapshot: &DisplaySnapshot, first: u32, row: int) -> Option<u32> {
    let this = from_wrap_spec(snapshot.lens(), snapshot.width(), WrapPoint { row: row as u32, column: 0 }).row;
    let prev = from_wrap_spec(snapshot.lens(), snapshot.width(), WrapPoint { row: (row - 1) as u32, column: 0 }).row;
    if row == first || this != prev {
        Some((this + 1) as u32)
    } else {
        None
    }
}

/// The gutter's line numbers for the display rows `first..end`; see
/// [`gutter_label`].
pub fn gutter_labels(snapshot: &DisplaySnapshot, first: u32, end: u32) -> (r: Vec<Option<u32>>)
    requires
        first <= end,
    ensures
        r@.len() == end - first,
        forall|i: int| 0 <= i < r@.len() ==> #[trigger] r@[i] == gutter_label(snapshot, first, first + i),
{
    let buffer = snapshot.buffer_snapshot();
    let mut r: Vec<Option<u32>> = Vec::new();
    let mut prev: u32 = 0;
    let mut row = first;
    while row < end
        invariant
            first <= row <= end,
            buffer@ == snapshot.lens(),
            buffer.wf(),
            r@.len() == row - first,
            row > first ==> prev == from_wrap_spec(snapshot.lens(), snapshot.width(), WrapPoint { row: (row - 1) as u32, column: 0 }).row,
            forall|i: int| 0 <= i < r@.len() ==> #[trigger] r@[i] == gutter_label(snapshot, first, first + i),
        decreases end - row,
    {
        let line = snapshot.buffer_row_for_display_row(row);
        if row == first || line != prev {
            r.push(Some(line + 1));
        } else {
            r.push(None);
        }
        prev = line;
        row = row + 1;
    }
    r
}

/// The base-10 logarithm of `n`, rounded down (for `n >= 1`).
pub open spec fn ilog10_spec(n: nat) -> nat
    decreases n,
{
    if n < 10 {
        0
    } else {
        1 + ilog10_spec(n / 10)
    }
}

/// `10` to the power `k`.
pub open spec fn pow10(k: nat) -> nat
    decreases k,
{
    if k == 0 {
        1
    } else {
        10 * pow10((k - 1) as nat)
    }
}

proof fn lemma_ilog10_below(n: nat, k: nat)
    requires
        n < pow10(k),
        k >= 1,
    ensures
        ilog10_spec(n) < k,
    decreases k,
{
    if n >= 10 {
        assert(n / 10 < pow10((k - 1) as nat));
        lemma_ilog10_below(n / 10, (k - 1) as nat);
    }
}

/// The width of the line-number gutter: two cells more than the digits of
/// the row count less one, as `2 + ilog10(rows)` gives; none without line
/// numbers.
pub open spec fn gutter_width_spec(show_line_numbers: bool, row_count: u32) -> nat {
    if !show_line_numbers {
        0
    } else if row_count == 0 {
        2
    } else {
        2 + ilog10_spec(row_count as nat)
    }
}

/// See [`gutter_width_spec`].
pub fn gutter_width(show_line_numbers: bool, row_count: u32) -> (w: u32)
    ensures
        w == gutter_width_spec(show_line_numbers, row_count),
{
    if !show_line_numbers {
        return 0;
    }
    if row_count == 0 {
        return 2;
    }
    let mut n = row_count;
    let mut digits: u32 = 0;
    proof {
        reveal_with_fuel(pow10, 11);
        assert(pow10(10) == 10000000000nat);
        lemma_ilog10_below(row_count as nat, 10);
    }
    while n >= 10
        invariant
            1 <= n <= row_count,
            digits <= 10,
            digits + ilog10_spec(n as nat) == ilog10_spec(row_count as nat),
            ilog10_spec(row_count as nat) <= 9,
        decreases n,
    {
        n = n / 10;
        digits = digits + 1;
    }
    2 + digits
}

/// The wrap width of a text view `width` cells wide with the given side
/// margins: the columns left between the margins, at least one; no wrapping
/// where wrapping is off.
pub open spec fn wrap_width_spec(wrap: bool, width: u16, margin_left: u32, margin_right: u32) -> Option<u32> {
    if !wrap {
        None
    } else {
        let cols = width - margin_left - margin_right;
        Some((if cols >= 1 { cols } else { 1 }) as u32)
    }
}

/// See [`wrap_width_spec`].
pub fn wrap_width(wrap: bool, width: u16, margin_left: u32, margin_right: u32) -> (r: Option<u32>)
    ensures
        r == wrap_width_spec(wrap, width, margin_left, margin_right),
{
    if !wrap {
        return None;
    }
    let left: u64 = margin_left as u64 + margin_right as u64;
    let w = width as u64;
    if w > left && w - left >= 1 {
        Some((w - left) as u32)
    } else {
        Some(1)
    }
}

/// Whether the terminal cursor is drawn as a bar (in insert and command
/// modes) rather than a block.
pub fn cursor_is_bar(mode: Mode) -> (b: bool)
    ensures
        b == (mode == Mode::Insert || mode == Mode::Command),
{
    mode == Mode::Insert || mode == Mode::Command
}

/// The colours of one cell: the base colours, or the match colours in a
/// match; the background becomes the selection colour where the cell is
/// selected (outside command mode), on a selected row in visual-line mode,
/// or under a cursor.
pub open spec fn cell_colors_spec(
    base: (Rgb, Rgb),
    find: (Rgb, Rgb),
    selection_bg: Rgb,
    mode: Mode,
    in_match: bool,
    selected: (bool, bool, bool),
) -> (Rgb, Rgb) {
    let (fg, bg) = if in_match { find } else { base };
    let on_selection = (selected.0 && mode != Mode::Command) || (selected.1 && mode == Mode::VisualLine) || selected.2;
    (fg, if on_selection { selection_bg } else { bg })
}

/// See [`cell_colors_spec`].
pub fn cell_colors(
    base: (Rgb, Rgb),
    find: (Rgb, Rgb),
    selection_bg: Rgb,
    mode: Mode,
    in_match: bool,
    selected: (bool, bool, bool),
) -> (c: (Rgb, Rgb))
    ensures
        c == cell_colors_spec(base, find, selection_bg, mode, in_match, selected),
{
    let (fg, mut bg) = if in_match { find } else { base };
    if selected.0 && mode != Mode::Command {
        bg = selection_bg;
    }
    if selected.1 && mode == Mode::VisualLine {
        bg = selection_bg;
    }
    if selected.2 {
        bg = selection_bg;
    }
    (fg, bg)
}

/// Whether each of the columns `0..n` lies in a search match; see
/// [`column_in_match`].
pub fn match_columns(ranges: &Vec<(usize, usize)>, n: usize) -> (r: Vec<bool>)
    ensures
        r@.len() == n,
        forall|c: int| 0 <= c < n ==> r@[c] == column_in_match(ranges@, c),
{
    let mut r: Vec<bool> = Vec::new();
    let mut idx: usize = 0;
    let mut column: usize = 0;
    while column < n
        invariant
            column <= n,
            r@.len() == column,
            idx <= ranges@.len(),
            idx == match_index(ranges@, column - 1),
            forall|c: int| 0 <= c < column ==> r@[c] == column_in_match(ranges@, c),
        decreases n - column,
    {
        let ghost start = idx;
        while idx < ranges.len() && column >= ranges[idx].1
            invariant
                start <= idx <= ranges@.len(),
                advance_spec(ranges@, start as int, column as int) == advance_spec(ranges@, idx as int, column as int),
            decreases ranges@.len() - idx,
        {
            idx = idx + 1;
        }
        let hit = idx < ranges.len() && ranges[idx].0 <= column && column <= ranges[idx].1;
        r.push(hit);
        column = column + 1;
    }
    r
}

/// Whether the cell at column `c` of display row `row` converts back to a
/// buffer point within `u32` columns.
pub open spec fn cell_fits(snapshot: &DisplaySnapshot, row: u32, c: int) -> bool {
    snapshot.fits(DisplayPoint(WrapPoint { row, column: c as u32 }))
}

/// The colours of the first `n` cells of display row `row`: each cell's
/// base colours from `base`, search matches from `ranges`, and the
/// selection state of the buffer point under the cell.
pub fn row_cell_colors(
    snapshot: &DisplaySnapshot,
    row: u32,
    n: usize,
    selections: &SelectionCollection,
    buffer: &TextRows,
    ranges: &Vec<(usize, usize)>,
    mode: Mode,
    base: &Vec<(Rgb, Rgb)>,
    find: (Rgb, Rgb),
    selection_bg: Rgb,
) -> (cells: Vec<(Rgb, Rgb)>)
    requires
        n <= base@.len(),
        n <= u32::MAX,
        forall|c: int| 0 <= c < n ==> #[trigger] cell_fits(snapshot, row, c),
    ensures
        cells@.len() == n,
        forall|c: int|
            0 <= c < n ==> {
                let p = from_wrap_spec(snapshot.lens(), snapshot.width(), WrapPoint { row, column: c as u32 });
                #[trigger] cells@[c] == cell_colors_spec(
                    base@[c],
                    find,
                    selection_bg,
                    mode,
                    column_in_match(ranges@, c),
                    selected_from(selections.selections@, 0, p.row, p.column, (true, true, false)),
                )
            },
{
    let matched = match_columns(ranges, n);
    let mut cells: Vec<(Rgb, Rgb)> = Vec::new();
    let mut column: usize = 0;
    while column < n
        invariant
            column <= n,
            n <= base@.len(),
            n <= u32::MAX,
            matched@.len() == n,
            forall|c: int| 0 <= c < n ==> matched@[c] == column_in_match(ranges@, c),
            forall|c: int| 0 <= c < n ==> #[trigger] cell_fits(snapshot, row, c),
            cells@.len() == column,
            forall|c: int|
                0 <= c < column ==> {
                    let p = from_wrap_spec(snapshot.lens(), snapshot.width(), WrapPoint { row, column: c as u32 });
                    #[trigger] cells@[c] == cell_colors_spec(
                        base@[c],
                        find,
                        selection_bg,
                        mode,
                        column_in_match(ranges@, c),
                        selected_from(selections.selections@, 0, p.row, p.column, (true, true, false)),
                    )
                },
        decreases n - column,
    {
        let q = DisplayPoint::new(row, column as u32);
        proof {
            assert(cell_fits(snapshot, row, column as int));
        }
        let p = snapshot.display_point_to_point(q);
        let sel = selections.is_selected(p.row, p.column, buffer);
        let colors = cell_colors(base[column], find, selection_bg, mode, matched[column], sel);
        cells.push(colors);
        column = column + 1;
    }
    cells
}

} // verus!
