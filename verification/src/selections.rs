//! Selections in a document and the cursor motions on them. A selection's
//! two ends are buffer points; its head is the end that moves.
use vstd::prelude::*;
use vstd::utf8::encode_utf8;
use crate::document::{row_bytes, TextRows};
use crate::point::{point_le, point_lt, Point};
use crate::document::lemma_chars_le_bytes;
use crate::search::{byte_offset, char_width, lemma_offset_bound, lemma_offset_monotone, lemma_offset_step};
use crate::text_util::{is_whitespace, is_whitespace_spec, str_to_chars};

verus! {

/// The index of the first character of `s` at or after `i` that starts at
/// byte `offset`, or `s.len()` where none does.
pub open spec fn char_at_offset(s: Seq<char>, offset: int, i: int) -> int
    decreases s.len() - i,
{
    if i < 0 || i >= s.len() {
        s.len() as int
    } else if byte_offset(s, i) == offset {
        i
    } else {
        char_at_offset(s, offset, i + 1)
    }
}

/// The column, in characters, of the character that starts at byte
/// `offset` of `text`; 0 where no character starts there (the end of the
/// text included). Columns past `u32::MAX` wrap as `as u32` does.
pub fn offset_to_column(text: &String, offset: usize) -> (c: u32)
    requires
        encode_utf8(text@).len() <= usize::MAX,
    ensures
        ({
            let k = char_at_offset(text@, offset as int, 0);
            c == if k < text@.len() { k as u32 } else { 0 }
        }),
{
    let chars = str_to_chars(text.as_str());
    let n = chars.len();
    let mut cc: usize = 0;
    let mut i: usize = 0;
    proof {
        assert(text@.subrange(0, 0) =~= Seq::<char>::empty());
        assert(encode_utf8(Seq::<char>::empty()) =~= Seq::<u8>::empty());
    }
    while i < n
        invariant
            n == chars@.len(),
            chars@ == text@,
            i <= n,
            cc == byte_offset(text@, i as int),
            encode_utf8(text@).len() <= usize::MAX,
            char_at_offset(text@, offset as int, 0) == char_at_offset(text@, offset as int, i as int),
        decreases n - i,
    {
        if cc == offset {
            return i as u32;
        }
        proof {
            lemma_offset_step(text@, i as int);
            lemma_offset_bound(text@, i + 1);
        }
        cc = cc + char_width(chars[i]);
        i = i + 1;
    }
    0
}


/// A selection with its ends resolved to buffer points. The head (the
/// cursor) is `start` when `reversed`, else `end`; the other end is the tail.
#[derive(Clone, Copy, Debug, PartialEq, Eq, Structural)]
pub struct Selection {
    pub id: usize,
    pub start: Point,
    pub end: Point,
    pub reversed: bool,
}

/// Whether `p` is a position of the document: on one of its rows, at most at
/// the end of that row.
pub open spec fn valid_position(rows: Seq<Seq<char>>, p: Point) -> bool {
    p.row < rows.len() && p.column <= row_bytes(rows[p.row as int])
}

/// `sel` with its head moved to `p`, its tail kept when `anchor` and
/// otherwise collapsed onto `p`.
pub open spec fn moved_to(sel: Selection, anchor: bool, p: Point) -> Selection {
    Selection { id: sel.id, start: p, end: if anchor { sel.tail_spec() } else { p }, reversed: true }
}

/// The end of `row`.
pub open spec fn end_of_row(rows: Seq<Seq<char>>, row: int) -> Point {
    Point { row: row as u32, column: row_bytes(rows[row]) as u32 }
}

/// The last position of the document.
pub open spec fn end_of_document(rows: Seq<Seq<char>>) -> Point {
    end_of_row(rows, rows.len() - 1)
}

/// The position one line up: the end of the previous row, or the start of
/// the document on the first row.
pub open spec fn previous_line_point(rows: Seq<Seq<char>>, head: Point) -> Point {
    if head.row > 0 {
        end_of_row(rows, head.row - 1)
    } else {
        Point { row: 0, column: 0 }
    }
}

/// The position one line down: the start of the next row, or the end of the
/// last row.
pub open spec fn next_line_point(rows: Seq<Seq<char>>, head: Point) -> Point {
    if head.row + 1 < rows.len() {
        Point { row: (head.row + 1) as u32, column: 0 }
    } else {
        end_of_row(rows, head.row as int)
    }
}

/// The row that `move_to_line` goes to for the one-based `line`.
pub open spec fn line_row(line: u32, row_count: nat) -> u32 {
    let want: int = if line > 0 { line - 1 } else { 0 };
    let last: int = row_count - 1;
    (if want < last { want } else { last }) as u32
}

/// The index of the first character of `s` at or after `i` that is not
/// whitespace, or `s.len()` where there is none.
pub open spec fn first_non_space(s: Seq<char>, i: int) -> int
    decreases s.len() - i,
{
    if i >= s.len() {
        s.len() as int
    } else if !is_whitespace_spec(s[i]) {
        i
    } else {
        first_non_space(s, i + 1)
    }
}

/// The column of the first non-whitespace character of a row; 0 where the
/// row has none.
pub open spec fn first_non_space_column(s: Seq<char>) -> int {
    let k = first_non_space(s, 0);
    if k < s.len() {
        byte_offset(s, k)
    } else {
        0
    }
}

/// Whether a character of `s` starts at byte `b` (the end of `s` counts).
pub open spec fn is_char_start(s: Seq<char>, b: int) -> bool {
    exists|k: int| 0 <= k <= s.len() && byte_offset(s, k) == b
}

/// The index of the `k`-th (counting from one) character `ch` of `s` at or
/// after index `i` among those that start at byte `b` or later.
pub open spec fn nth_forward(s: Seq<char>, ch: char, b: int, i: int, k: nat) -> Option<int>
    decreases s.len() - i,
{
    if i >= s.len() {
        None
    } else if byte_offset(s, i) >= b && s[i] == ch {
        if k <= 1 {
            Some(i)
        } else {
            nth_forward(s, ch, b, i + 1, (k - 1) as nat)
        }
    } else {
        nth_forward(s, ch, b, i + 1, k)
    }
}

/// The index of the `k`-th character `ch` of `s` counting back from index
/// `i` (exclusive) among those that start before byte `b`.
pub open spec fn nth_backward(s: Seq<char>, ch: char, b: int, i: int, k: nat) -> Option<int>
    decreases i,
{
    if i <= 0 {
        None
    } else if byte_offset(s, i - 1) < b && s[i - 1] == ch {
        if k <= 1 {
            Some(i - 1)
        } else {
            nth_backward(s, ch, b, i - 1, (k - 1) as nat)
        }
    } else {
        nth_backward(s, ch, b, i - 1, k)
    }
}

/// The match that `find_character` looks for: the `k`-th `ch` after the
/// column `col` when `forward`, else the `k`-th before it.
pub open spec fn nth_match(s: Seq<char>, ch: char, col: int, forward: bool, k: nat) -> Option<int> {
    if forward {
        nth_forward(s, ch, col + 1, 0, k)
    } else {
        nth_backward(s, ch, col, s.len() as int, k)
    }
}

/// The column that `find_character` moves the head to on a row `s` from
/// column `col`, or `None` where it leaves the selection as it is. With a
/// count of zero the head stays where it is unless the character occurs.
pub open spec fn find_character_column(s: Seq<char>, col: int, ch: char, count: nat, forward: bool) -> Option<int> {
    if count == 0 {
        if nth_match(s, ch, col, forward, 1) is None {
            Some(col)
        } else {
            None
        }
    } else {
        match nth_match(s, ch, col, forward, count) {
            Some(j) => Some(byte_offset(s, j)),
            None => None,
        }
    }
}

proof fn lemma_nth_forward_past_end(s: Seq<char>, ch: char, b: int, i: int, k: nat)
    requires
        0 <= i <= s.len(),
        b >= encode_utf8(s).len(),
    ensures
        nth_forward(s, ch, b, i, k) is None,
    decreases s.len() - i,
{
    if i < s.len() {
        lemma_offset_monotone(s, i, s.len() as int);
        assert(s.subrange(0, s.len() as int) =~= s);
        lemma_nth_forward_past_end(s, ch, b, i + 1, k);
        lemma_nth_forward_past_end(s, ch, b, i + 1, (k - 1) as nat);
    }
}

proof fn lemma_nth_backward_from_start(s: Seq<char>, ch: char, i: int, k: nat)
    requires
        0 <= i <= s.len(),
    ensures
        nth_backward(s, ch, 0, i, k) is None,
    decreases i,
{
    if i > 0 {
        lemma_offset_bound(s, i - 1);
        lemma_nth_backward_from_start(s, ch, i - 1, k);
    }
}

/// Where a head goes one character left: one byte back on its row, to the
/// end of the previous row from the start of a row, nowhere from the start
/// of the document.
pub open spec fn left_point(rows: Seq<Seq<char>>, head: Point) -> Point {
    if head.column > 0 {
        Point { row: head.row, column: (head.column - 1) as u32 }
    } else if head.row > 0 {
        end_of_row(rows, head.row - 1)
    } else {
        head
    }
}

/// Where a head goes one character right: one byte on along its row, or
/// from the end of a row to the start of the next one (the end of the last
/// row stays).
pub open spec fn right_point(rows: Seq<Seq<char>>, head: Point) -> Point {
    if head.column < row_bytes(rows[head.row as int]) {
        Point { row: head.row, column: (head.column + 1) as u32 }
    } else {
        next_line_point(rows, head)
    }
}

/// Whether a step left from `head` lands where a character starts. A step
/// into the middle of a multi-byte character is the text buffer's to
/// resolve, and is left out.
pub open spec fn can_step_left(rows: Seq<Seq<char>>, head: Point) -> bool {
    &&& valid_position(rows, head)
    &&& head.column > 0 ==> is_char_start(rows[head.row as int], head.column - 1)
}

/// Whether a step right from `head` lands where a character starts (or at
/// the end of the row).
pub open spec fn can_step_right(rows: Seq<Seq<char>>, head: Point) -> bool {
    &&& valid_position(rows, head)
    &&& head.column < row_bytes(rows[head.row as int]) ==> is_char_start(rows[head.row as int], head.column + 1)
}

/// Where a vertical motion puts a head on `row`: at the goal column where
/// the row is longer than it, else at the head's own column, clamped to the
/// end of the row.
pub open spec fn vertical_point(rows: Seq<Seq<char>>, head: Point, goal: u32, row: int) -> Point {
    let len = row_bytes(rows[row]);
    let c: int = if goal < len { goal as int } else { head.column as int };
    Point { row: row as u32, column: (if c < len { c } else { len }) as u32 }
}

/// Where a head goes one row up; on the first row it stays on that row.
pub open spec fn up_point(rows: Seq<Seq<char>>, head: Point, goal: u32) -> Point {
    vertical_point(rows, head, goal, if head.row > 0 { head.row - 1 } else { 0 })
}

/// Where a head goes one row down; from the last row, to the end of the
/// document.
pub open spec fn down_point(rows: Seq<Seq<char>>, head: Point, goal: u32) -> Point {
    if head.row + 1 < rows.len() {
        vertical_point(rows, head, goal, head.row + 1)
    } else {
        end_of_document(rows)
    }
}

/// Whether a vertical move from `head` lands where a character starts.
pub open spec fn can_move_up(rows: Seq<Seq<char>>, head: Point, goal: u32) -> bool {
    &&& valid_position(rows, head)
    &&& is_char_start(rows[up_point(rows, head, goal).row as int], up_point(rows, head, goal).column as int)
}

/// Whether a vertical move down from `head` lands where a character starts.
pub open spec fn can_move_down(rows: Seq<Seq<char>>, head: Point, goal: u32) -> bool {
    &&& valid_position(rows, head)
    &&& head.row + 1 < rows.len() ==> is_char_start(
        rows[down_point(rows, head, goal).row as int],
        down_point(rows, head, goal).column as int,
    )
}

/// A step right then a step left come back to where the head was, except
/// at the end of the document, where the step right stays.
pub proof fn law_left_undoes_right(rows: Seq<Seq<char>>, head: Point)
    requires
        valid_position(rows, head),
        head != end_of_document(rows),
        rows.len() <= u32::MAX,
        forall|r: int| 0 <= r < rows.len() ==> row_bytes(#[trigger] rows[r]) <= u32::MAX,
    ensures
        left_point(rows, right_point(rows, head)) == head,
{
}

/// A step left then a step right come back to where the head was, except
/// at the start of the document, where the step left stays.
pub proof fn law_right_undoes_left(rows: Seq<Seq<char>>, head: Point)
    requires
        valid_position(rows, head),
        head != (Point { row: 0, column: 0 }),
        rows.len() <= u32::MAX,
        forall|r: int| 0 <= r < rows.len() ==> row_bytes(#[trigger] rows[r]) <= u32::MAX,
    ensures
        right_point(rows, left_point(rows, head)) == head,
{
}

impl Selection {
    /// The head of the selection.
    pub open spec fn head_spec(self) -> Point {
        if self.reversed {
            self.start
        } else {
            self.end
        }
    }

    /// The tail of the selection.
    pub open spec fn tail_spec(self) -> Point {
        if self.reversed {
            self.end
        } else {
            self.start
        }
    }

    /// The head: the end that motions move.
    pub fn head(&self) -> (p: Point)
        ensures
            p == self.head_spec(),
    {
        if self.reversed {
            self.start
        } else {
            self.end
        }
    }

    /// The tail: the end that stays when a motion extends the selection.
    pub fn tail(&self) -> (p: Point)
        ensures
            p == self.tail_spec(),
    {
        if self.reversed {
            self.end
        } else {
            self.start
        }
    }

    /// This selection with its head moved to `p`.
    fn moved(&self, anchor: bool, p: Point) -> (s: Selection)
        ensures
            s == moved_to(*self, anchor, p),
    {
        Selection { id: self.id, start: p, end: if anchor { self.tail() } else { p }, reversed: true }
    }

    /// Moves the head to the start of the document.
    pub fn move_to_start_of_document(&self, anchor: bool, _buffer: &TextRows) -> (s: Selection)
        ensures
            s == moved_to(*self, anchor, Point { row: 0, column: 0 }),
    {
        self.moved(anchor, Point::new(0, 0))
    }

    /// Moves the head to the end of the document.
    pub fn move_to_end_of_document(&self, anchor: bool, buffer: &TextRows) -> (s: Selection)
        ensures
            s == moved_to(*self, anchor, end_of_document(buffer@)),
    {
        self.moved(anchor, buffer.max_point())
    }

    /// Moves the head to the start of its row.
    pub fn move_to_start_of_line(&self, anchor: bool, _buffer: &TextRows) -> (s: Selection)
        ensures
            s == moved_to(*self, anchor, Point { row: self.head_spec().row, column: 0 }),
    {
        self.moved(anchor, Point::new(self.head().row, 0))
    }

    /// Moves the head to the end of its row.
    pub fn move_to_end_of_line(&self, anchor: bool, buffer: &TextRows) -> (s: Selection)
        requires
            valid_position(buffer@, self.head_spec()),
        ensures
            s == moved_to(*self, anchor, end_of_row(buffer@, self.head_spec().row as int)),
    {
        let row = self.head().row;
        self.moved(anchor, Point::new(row, buffer.line_len(row)))
    }

    /// Moves the head to the start of the one-based `line`, clamped to the
    /// last row. The selection is left unreversed, so with `anchor` its head
    /// is the old tail.
    pub fn move_to_line(&self, anchor: bool, line: u32, buffer: &TextRows) -> (s: Selection)
        ensures
            ({
                let p = Point { row: line_row(line, buffer@.len()), column: 0 };
                s == Selection { id: self.id, start: p, end: if anchor { self.tail_spec() } else { p }, reversed: false }
            }),
    {
        let want = if line > 0 { line - 1 } else { 0 };
        let last = buffer.row_count() - 1;
        let p = Point::new(if want < last { want } else { last }, 0);
        Selection { id: self.id, start: p, end: if anchor { self.tail() } else { p }, reversed: false }
    }

    /// Moves the head to the end of the previous row (the start of the line,
    /// then one character left).
    pub fn move_to_previous_line(&self, anchor: bool, buffer: &TextRows) -> (s: Selection)
        requires
            valid_position(buffer@, self.head_spec()),
        ensures
            s == moved_to(*self, anchor, previous_line_point(buffer@, self.head_spec())),
    {
        let row = self.head().row;
        if row > 0 {
            self.moved(anchor, Point::new(row - 1, buffer.line_len(row - 1)))
        } else {
            self.moved(anchor, Point::new(0, 0))
        }
    }

    /// Moves the head to the start of the next row (the end of the line, then
    /// one character right); on the last row it stays at the row's end.
    pub fn move_to_next_line(&self, anchor: bool, buffer: &TextRows) -> (s: Selection)
        requires
            valid_position(buffer@, self.head_spec()),
        ensures
            s == moved_to(*self, anchor, next_line_point(buffer@, self.head_spec())),
    {
        let row = self.head().row;
        let n = buffer.row_count();
        if row < n - 1 {
            self.moved(anchor, Point::new(row + 1, 0))
        } else {
            self.moved(anchor, Point::new(row, buffer.line_len(row)))
        }
    }

    /// Moves the head one character left; see [`left_point`].
    pub fn move_left_once(&self, anchor: bool, buffer: &TextRows) -> (s: Selection)
        requires
            can_step_left(buffer@, self.head_spec()),
        ensures
            s == moved_to(*self, anchor, left_point(buffer@, self.head_spec())),
    {
        let head = self.head();
        if head.column > 0 {
            self.moved(anchor, Point::new(head.row, head.column - 1))
        } else if head.row > 0 {
            self.moved(anchor, Point::new(head.row - 1, buffer.line_len(head.row - 1)))
        } else {
            self.moved(anchor, head)
        }
    }

    /// Moves the head one character right; see [`right_point`].
    pub fn move_right_once(&self, anchor: bool, buffer: &TextRows) -> (s: Selection)
        requires
            can_step_right(buffer@, self.head_spec()),
        ensures
            s == moved_to(*self, anchor, right_point(buffer@, self.head_spec())),
    {
        let head = self.head();
        let len = buffer.line_len(head.row);
        if head.column < len {
            self.moved(anchor, Point::new(head.row, head.column + 1))
        } else {
            self.move_to_next_line(anchor, buffer)
        }
    }

    /// Moves the head to the first non-whitespace character of its row, or
    /// to the row's start where it has none.
    pub fn move_to_start_of_line_non_space(&self, anchor: bool, buffer: &TextRows) -> (s: Selection)
        requires
            valid_position(buffer@, self.head_spec()),
        ensures
            s == moved_to(
                *self,
                anchor,
                Point { row: self.head_spec().row, column: first_non_space_column(buffer@[self.head_spec().row as int]) as u32 },
            ),
    {
        let row = self.head().row;
        let total = buffer.line_len(row);
        let line = buffer.row_chars(row);
        let ghost t = line@;
        let n = line.len();
        let mut i: usize = 0;
        let mut off: usize = 0;
        let mut first: usize = 0;
        let mut found = false;
        proof {
            assert(t.subrange(0, 0) =~= Seq::<char>::empty());
            assert(encode_utf8(Seq::<char>::empty()) =~= Seq::<u8>::empty());
        }
        while i < n && !found
            invariant
                n == t.len(),
                t == line@,
                total == encode_utf8(t).len(),
                i <= n,
                off == byte_offset(t, i as int),
                found ==> first == first_non_space_column(t) && first <= total,
                !found ==> first == 0,
                !found ==> first_non_space(t, 0) == first_non_space(t, i as int),
            decreases n - i + (if found { 0int } else { 1int }),
        {
            proof {
                lemma_offset_step(t, i as int);
                lemma_offset_bound(t, i + 1);
                lemma_offset_bound(t, i as int);
            }
            if !is_whitespace(line[i]) {
                first = off;
                found = true;
            } else {
                off = off + char_width(line[i]);
                i = i + 1;
            }
        }
        self.moved(anchor, Point::new(row, first as u32))
    }

    /// Moves the head onto the `count`-th occurrence of `ch` after it
    /// (`forward`) or before it on its row; where there are fewer, the
    /// selection stays as it is.
    pub fn find_character(&self, anchor: bool, count: u32, ch: char, forward: bool, buffer: &TextRows) -> (s: Selection)
        requires
            valid_position(buffer@, self.head_spec()),
            forward && self.head_spec().column + 1 < row_bytes(buffer@[self.head_spec().row as int]) ==> is_char_start(
                buffer@[self.head_spec().row as int],
                self.head_spec().column + 1,
            ),
            !forward && self.head_spec().column > 0 ==> is_char_start(
                buffer@[self.head_spec().row as int],
                self.head_spec().column as int,
            ),
        ensures
            ({
                let head = self.head_spec();
                match find_character_column(buffer@[head.row as int], head.column as int, ch, count as nat, forward) {
                    Some(c) => s == moved_to(*self, anchor, Point { row: head.row, column: c as u32 }),
                    None => s == *self,
                }
            }),
    {
        let head = self.head();
        let row = head.row;
        let total = buffer.line_len(row);
        let line = buffer.row_chars(row);
        let ghost t = line@;
        let n = line.len();
        let mut found_count: u32 = 0;
        let mut column: u32 = head.column;
        let mut done = false;
        proof {
            lemma_chars_le_bytes(t, n as int);
            assert(t.subrange(0, n as int) =~= t);
            assert(t.subrange(0, 0) =~= Seq::<char>::empty());
            assert(encode_utf8(Seq::<char>::empty()) =~= Seq::<u8>::empty());
        }
        if forward {
            let start_idx = (head.column as usize).saturating_add(1);
            if start_idx < total as usize {
                let mut i: usize = 0;
                let mut off: usize = 0;
                while i < n && !done
                    invariant
                        n == t.len(),
                        t == line@,
                        total == encode_utf8(t).len(),
                        n <= total,
                        start_idx == head.column + 1,
                        i <= n,
                        off == byte_offset(t, i as int),
                        found_count <= i + (if done { 1int } else { 0int }),
                        !done ==> column == head.column,
                        count >= 1 && done ==> ({
                            &&& nth_forward(t, ch, start_idx as int, 0, count as nat) matches Some(j)
                            &&& column == byte_offset(t, j)
                        }),
                        count >= 1 && !done ==> found_count < count && nth_forward(t, ch, start_idx as int, 0, count as nat)
                            == nth_forward(t, ch, start_idx as int, i as int, (count - found_count) as nat),
                        count == 0 ==> !done,
                        count == 0 && found_count == 0 ==> nth_forward(t, ch, start_idx as int, 0, 1)
                            == nth_forward(t, ch, start_idx as int, i as int, 1),
                        count == 0 && found_count > 0 ==> nth_forward(t, ch, start_idx as int, 0, 1) is Some,
                        done ==> found_count == count,
                    decreases n - i + (if done { 0int } else { 1int }),
                {
                    proof {
                        lemma_offset_step(t, i as int);
                        lemma_offset_bound(t, i + 1);
                        lemma_offset_bound(t, i as int);
                    }
                    if off >= start_idx && line[i] == ch {
                        found_count = found_count + 1;
                        if found_count == count {
                            column = off as u32;
                            done = true;
                        }
                    }
                    if !done {
                        off = off + char_width(line[i]);
                        i = i + 1;
                    }
                }
            } else {
                proof {
                    lemma_nth_forward_past_end(t, ch, head.column + 1, 0, 1);
                    lemma_nth_forward_past_end(t, ch, head.column + 1, 0, count as nat);
                }
            }
        } else {
            let end_idx = head.column as usize;
            if end_idx > 0 {
                let mut i: usize = n;
                let mut off: usize = total as usize;
                while i > 0 && !done
                    invariant
                        n == t.len(),
                        t == line@,
                        total == encode_utf8(t).len(),
                        n <= total,
                        end_idx == head.column,
                        i <= n,
                        off == byte_offset(t, i as int),
                        found_count <= n - i + (if done { 1int } else { 0int }),
                        !done ==> column == head.column,
                        count >= 1 && done ==> ({
                            &&& nth_backward(t, ch, end_idx as int, n as int, count as nat) matches Some(j)
                            &&& column == byte_offset(t, j)
                        }),
                        count >= 1 && !done ==> found_count < count && nth_backward(t, ch, end_idx as int, n as int, count as nat)
                            == nth_backward(t, ch, end_idx as int, i as int, (count - found_count) as nat),
                        count == 0 ==> !done,
                        count == 0 && found_count == 0 ==> nth_backward(t, ch, end_idx as int, n as int, 1)
                            == nth_backward(t, ch, end_idx as int, i as int, 1),
                        count == 0 && found_count > 0 ==> nth_backward(t, ch, end_idx as int, n as int, 1) is Some,
                        done ==> found_count == count,
                    decreases i + (if done { 0int } else { 1int }),
                {
                    proof {
                        lemma_offset_step(t, i - 1);
                        lemma_offset_bound(t, i - 1);
                    }
                    let prev = off - char_width(line[i - 1]);
                    if prev < end_idx && line[i - 1] == ch {
                        found_count = found_count + 1;
                        if found_count == count {
                            column = prev as u32;
                            done = true;
                        }
                    }
                    if !done {
                        off = prev;
                        i = i - 1;
                    }
                }
            } else {
                proof {
                    lemma_nth_backward_from_start(t, ch, n as int, 1);
                    lemma_nth_backward_from_start(t, ch, n as int, count as nat);
                }
            }
        }
        if found_count == count {
            self.moved(anchor, Point::new(row, column))
        } else {
            *self
        }
    }
}


/// The index of the first selection at or after `i` with id `id`, or
/// `sels.len()` where there is none.
pub open spec fn first_with_id(sels: Seq<Selection>, id: usize, i: int) -> int
    decreases sels.len() - i,
{
    if i >= sels.len() {
        sels.len() as int
    } else if sels[i].id == id {
        i
    } else {
        first_with_id(sels, id, i + 1)
    }
}

/// `sels` with its first selection of `sel`'s id replaced by `sel`; unchanged
/// where no selection has that id.
pub open spec fn updated(sels: Seq<Selection>, sel: Selection) -> Seq<Selection> {
    let k = first_with_id(sels, sel.id, 0);
    if k < sels.len() {
        sels.update(k, sel)
    } else {
        sels
    }
}

/// `sels` after updating it, in order, with the image under `f` of each of
/// `cursors`.
pub open spec fn update_each(sels: Seq<Selection>, cursors: Seq<Selection>, f: spec_fn(Selection) -> Selection) -> Seq<Selection>
    decreases cursors.len(),
{
    if cursors.len() == 0 {
        sels
    } else {
        update_each(updated(sels, f(cursors[0])), cursors.drop_first(), f)
    }
}

/// Whether no two selections share an id.
pub open spec fn ids_distinct(sels: Seq<Selection>) -> bool {
    forall|i: int, j: int| 0 <= i < j < sels.len() ==> sels[i].id != sels[j].id
}

/// Whether `f` keeps the id of every selection.
pub open spec fn keeps_ids(f: spec_fn(Selection) -> Selection) -> bool {
    forall|s: Selection| #[trigger] f(s).id == s.id
}

proof fn lemma_first_with_id(sels: Seq<Selection>, id: usize, i: int, k: int)
    requires
        0 <= i <= k < sels.len(),
        sels[k].id == id,
        forall|j: int| 0 <= j < k ==> sels[j].id != id,
    ensures
        first_with_id(sels, id, i) == k,
    decreases k - i,
{
    if i < k {
        lemma_first_with_id(sels, id, i + 1, k);
    }
}

proof fn lemma_update_each_suffix(sels: Seq<Selection>, f: spec_fn(Selection) -> Selection, k: int)
    requires
        0 <= k <= sels.len(),
        ids_distinct(sels),
        keeps_ids(f),
    ensures
        update_each(sels.take(k).map_values(f) + sels.skip(k), sels.skip(k), f) == sels.map_values(f),
    decreases sels.len() - k,
{
    let cur = sels.take(k).map_values(f) + sels.skip(k);
    if k == sels.len() {
        assert(cur =~= sels.map_values(f));
    } else {
        assert(cur[k] == sels[k]);
        assert forall|j: int| 0 <= j < k implies cur[j].id != sels[k].id by {
            assert(cur[j] == f(sels[j]));
        }
        lemma_first_with_id(cur, f(sels[k]).id, 0, k);
        assert(updated(cur, f(sels[k])) =~= sels.take(k + 1).map_values(f) + sels.skip(k + 1));
        assert(sels.skip(k).drop_first() =~= sels.skip(k + 1));
        lemma_update_each_suffix(sels, f, k + 1);
    }
}

/// Moving every selection of a collection whose ids are distinct, by a
/// motion that keeps ids, replaces each selection by its moved form.
pub proof fn law_update_each_moves_every_selection(sels: Seq<Selection>, f: spec_fn(Selection) -> Selection)
    requires
        ids_distinct(sels),
        keeps_ids(f),
    ensures
        update_each(sels, sels, f) == sels.map_values(f),
{
    lemma_update_each_suffix(sels, f, 0);
    assert(sels.take(0).map_values(f) + sels.skip(0) =~= sels);
    assert(sels.skip(0) =~= sels);
}

/// What `is_selected` answers for the selections from `i` on, having
/// reached the state `st` (inside every selection so far, on a row of every
/// one so far, at a head).
pub open spec fn selected_from(sels: Seq<Selection>, i: int, row: u32, column: u32, st: (bool, bool, bool)) -> (bool, bool, bool)
    decreases sels.len() - i,
{
    if i >= sels.len() || i < 0 {
        st
    } else {
        let h = sels[i].head_spec();
        let t = sels[i].tail_spec();
        let head_first = point_lt(h, t);
        let start = if head_first { h } else { t };
        let end = if head_first { t } else { h };
        if row < start.row || row > end.row {
            selected_from(sels, i + 1, row, column, (false, false, false))
        } else if row == start.row && column < start.column {
            selected_from(sels, i + 1, row, column, (false, st.1, false))
        } else if row == end.row && column > end.column {
            selected_from(sels, i + 1, row, column, (false, st.1, false))
        } else {
            let at_head = st.2 || (row == start.row && head_first && column == start.column) || (row == end.row
                && !head_first && column == end.column);
            if st.0 && at_head {
                (st.0, st.1, at_head)
            } else {
                selected_from(sels, i + 1, row, column, (st.0, st.1, at_head))
            }
        }
    }
}

proof fn lemma_nth_forward_hit(s: Seq<char>, ch: char, b: int, i: int, k: nat)
    requires
        0 <= i,
    ensures
        nth_forward(s, ch, b, i, k) matches Some(j) ==> i <= j < s.len() && s[j] == ch && byte_offset(s, j) >= b,
    decreases s.len() - i,
{
    if i < s.len() {
        lemma_nth_forward_hit(s, ch, b, i + 1, k);
        if k > 1 {
            lemma_nth_forward_hit(s, ch, b, i + 1, (k - 1) as nat);
        }
    }
}

proof fn lemma_nth_backward_hit(s: Seq<char>, ch: char, b: int, i: int, k: nat)
    requires
        i <= s.len(),
    ensures
        nth_backward(s, ch, b, i, k) matches Some(j) ==> 0 <= j < i && s[j] == ch && byte_offset(s, j) < b,
    decreases i,
{
    if i > 0 {
        lemma_nth_backward_hit(s, ch, b, i - 1, k);
        if k > 1 {
            lemma_nth_backward_hit(s, ch, b, i - 1, (k - 1) as nat);
        }
    }
}

/// Where `find_character` moves a head along its row with a positive count,
/// it lands on a `ch`: after the head when searching forward, before it
/// otherwise.
pub proof fn law_find_character_lands_on_the_character(s: Seq<char>, col: int, ch: char, count: nat, forward: bool)
    requires
        count >= 1,
    ensures
        find_character_column(s, col, ch, count, forward) matches Some(c) ==> exists|j: int|
            0 <= j < s.len() && s[j] == ch && byte_offset(s, j) == c && (if forward { c > col } else { c < col }),
{
    lemma_nth_forward_hit(s, ch, col + 1, 0, count);
    lemma_nth_backward_hit(s, ch, col, s.len() as int, count);
    if let Some(j) = nth_match(s, ch, col, forward, count) {
        assert(0 <= j < s.len() && s[j] == ch && byte_offset(s, j) == byte_offset(s, j));
    }
}

/// For one selection, `is_selected` answers whether the position lies
/// between the selection's ends, whether its row lies between their rows,
/// and whether it is the head.
pub proof fn law_is_selected_single(sel: Selection, row: u32, column: u32)
    ensures
        ({
            let h = sel.head_spec();
            let t = sel.tail_spec();
            let lo = if point_lt(h, t) { h } else { t };
            let hi = if point_lt(h, t) { t } else { h };
            let p = Point { row, column };
            selected_from(seq![sel], 0, row, column, (true, true, false)) == (
                point_le(lo, p) && point_le(p, hi),
                lo.row <= row <= hi.row,
                p == h,
            )
        }),
{
    reveal_with_fuel(selected_from, 2);
}

/// The selection collapsed onto its head.
pub open spec fn collapsed(sel: Selection) -> Selection {
    Selection { id: sel.id, start: sel.head_spec(), end: sel.head_spec(), reversed: false }
}


/// Collapsing a selection onto its head.
pub open spec fn collapse_motion() -> spec_fn(Selection) -> Selection {
    |s: Selection| collapsed(s)
}

/// Moving a head to the start of the document.
pub open spec fn start_of_document_motion(anchor: bool) -> spec_fn(Selection) -> Selection {
    |s: Selection| moved_to(s, anchor, Point { row: 0, column: 0 })
}

/// Moving a head to the end of the document.
pub open spec fn end_of_document_motion(rows: Seq<Seq<char>>, anchor: bool) -> spec_fn(Selection) -> Selection {
    |s: Selection| moved_to(s, anchor, end_of_document(rows))
}

/// Moving a head to the start of its row.
pub open spec fn start_of_line_motion(anchor: bool) -> spec_fn(Selection) -> Selection {
    |s: Selection| moved_to(s, anchor, Point { row: s.head_spec().row, column: 0 })
}

/// Moving a head to the first non-whitespace character of its row.
pub open spec fn start_of_line_non_space_motion(rows: Seq<Seq<char>>, anchor: bool) -> spec_fn(Selection) -> Selection {
    |s: Selection|
        moved_to(
            s,
            anchor,
            Point { row: s.head_spec().row, column: first_non_space_column(rows[s.head_spec().row as int]) as u32 },
        )
}

/// Moving a head to the end of its row.
pub open spec fn end_of_line_motion(rows: Seq<Seq<char>>, anchor: bool) -> spec_fn(Selection) -> Selection {
    |s: Selection| moved_to(s, anchor, end_of_row(rows, s.head_spec().row as int))
}

/// Moving a selection to the start of the one-based `line`.
pub open spec fn line_motion(rows: Seq<Seq<char>>, anchor: bool, line: u32) -> spec_fn(Selection) -> Selection {
    |s: Selection|
        {
            let p = Point { row: line_row(line, rows.len()), column: 0 };
            Selection { id: s.id, start: p, end: if anchor { s.tail_spec() } else { p }, reversed: false }
        }
}

/// Moving a head onto the `count`-th `ch` of its row after or before it.
pub open spec fn find_character_motion(rows: Seq<Seq<char>>, anchor: bool, count: u32, ch: char, forward: bool) -> spec_fn(
    Selection,
) -> Selection {
    |s: Selection|
        {
            let head = s.head_spec();
            match find_character_column(rows[head.row as int], head.column as int, ch, count as nat, forward) {
                Some(c) => moved_to(s, anchor, Point { row: head.row, column: c as u32 }),
                None => s,
            }
        }
}

/// Moving a head one character left.
pub open spec fn left_motion(rows: Seq<Seq<char>>, anchor: bool) -> spec_fn(Selection) -> Selection {
    |s: Selection| moved_to(s, anchor, left_point(rows, s.head_spec()))
}

/// Moving a head one character right.
pub open spec fn right_motion(rows: Seq<Seq<char>>, anchor: bool) -> spec_fn(Selection) -> Selection {
    |s: Selection| moved_to(s, anchor, right_point(rows, s.head_spec()))
}

/// Moving a head one row up, aiming at the goal column.
pub open spec fn up_motion(rows: Seq<Seq<char>>, anchor: bool, goal: u32) -> spec_fn(Selection) -> Selection {
    |s: Selection| moved_to(s, anchor, up_point(rows, s.head_spec(), goal))
}

/// Moving a head one row down, aiming at the goal column.
pub open spec fn down_motion(rows: Seq<Seq<char>>, anchor: bool, goal: u32) -> spec_fn(Selection) -> Selection {
    |s: Selection| moved_to(s, anchor, down_point(rows, s.head_spec(), goal))
}

/// Whether `find_character` can look for a character from the head of `s`:
/// the byte it starts reading at begins a character.
pub open spec fn can_find_from(rows: Seq<Seq<char>>, s: Selection, forward: bool) -> bool {
    let head = s.head_spec();
    &&& valid_position(rows, head)
    &&& forward && head.column + 1 < row_bytes(rows[head.row as int]) ==> is_char_start(rows[head.row as int], head.column + 1)
    &&& !forward && head.column > 0 ==> is_char_start(rows[head.row as int], head.column as int)
}

/// Whether every head of `sels` is a position of the document.
pub open spec fn heads_valid(rows: Seq<Seq<char>>, sels: Seq<Selection>) -> bool {
    forall|i: int| 0 <= i < sels.len() ==> valid_position(rows, #[trigger] sels[i].head_spec())
}

/// The selections after `k` rounds of moving every selection, in order,
/// with `f`.
pub open spec fn rounds(sels: Seq<Selection>, f: spec_fn(Selection) -> Selection, k: nat) -> Seq<Selection>
    decreases k,
{
    if k == 0 {
        sels
    } else {
        let prev = rounds(sels, f, (k - 1) as nat);
        update_each(prev, prev, f)
    }
}

/// Whether every head that `count` rounds of one-character moves left
/// start from can make its step.
pub open spec fn left_rounds_ok(rows: Seq<Seq<char>>, anchor: bool, sels: Seq<Selection>, count: nat) -> bool {
    forall|k: nat, i: int|
        k < count && 0 <= i < rounds(sels, left_motion(rows, anchor), k).len() ==> can_step_left(
            rows,
            #[trigger] rounds(sels, left_motion(rows, anchor), k)[i].head_spec(),
        )
}

/// Whether every head that `count` rounds of one-character moves right
/// start from can make its step.
pub open spec fn right_rounds_ok(rows: Seq<Seq<char>>, anchor: bool, sels: Seq<Selection>, count: nat) -> bool {
    forall|k: nat, i: int|
        k < count && 0 <= i < rounds(sels, right_motion(rows, anchor), k).len() ==> can_step_right(
            rows,
            #[trigger] rounds(sels, right_motion(rows, anchor), k)[i].head_spec(),
        )
}

/// Whether every head that `count` rounds of moves up start from can make
/// its step.
pub open spec fn up_rounds_ok(rows: Seq<Seq<char>>, anchor: bool, goal: u32, sels: Seq<Selection>, count: nat) -> bool {
    forall|k: nat, i: int|
        k < count && 0 <= i < rounds(sels, up_motion(rows, anchor, goal), k).len() ==> can_move_up(
            rows,
            #[trigger] rounds(sels, up_motion(rows, anchor, goal), k)[i].head_spec(),
            goal,
        )
}

/// Whether every head that `count` rounds of moves down start from can
/// make its step.
pub open spec fn down_rounds_ok(rows: Seq<Seq<char>>, anchor: bool, goal: u32, sels: Seq<Selection>, count: nat) -> bool {
    forall|k: nat, i: int|
        k < count && 0 <= i < rounds(sels, down_motion(rows, anchor, goal), k).len() ==> can_move_down(
            rows,
            #[trigger] rounds(sels, down_motion(rows, anchor, goal), k)[i].head_spec(),
            goal,
        )
}

proof fn lemma_first_with_id_bounds(sels: Seq<Selection>, id: usize, i: int)
    requires
        0 <= i <= sels.len(),
    ensures
        i <= first_with_id(sels, id, i) <= sels.len(),
    decreases sels.len() - i,
{
    if i < sels.len() {
        lemma_first_with_id_bounds(sels, id, i + 1);
    }
}

proof fn lemma_update_each_len(sels: Seq<Selection>, cursors: Seq<Selection>, f: spec_fn(Selection) -> Selection)
    ensures
        update_each(sels, cursors, f).len() == sels.len(),
    decreases cursors.len(),
{
    if cursors.len() > 0 {
        lemma_first_with_id_bounds(sels, f(cursors[0]).id, 0);
        lemma_update_each_len(updated(sels, f(cursors[0])), cursors.drop_first(), f);
    }
}

proof fn lemma_rounds_len(sels: Seq<Selection>, f: spec_fn(Selection) -> Selection, k: nat)
    ensures
        rounds(sels, f, k).len() == sels.len(),
    decreases k,
{
    if k > 0 {
        lemma_rounds_len(sels, f, (k - 1) as nat);
        let prev = rounds(sels, f, (k - 1) as nat);
        lemma_update_each_len(prev, prev, f);
    }
}

/// The motions that a collection applies to each of its selections.
#[derive(Clone, Copy)]
enum Motion {
    Collapse,
    StartOfDocument,
    EndOfDocument,
    StartOfLine,
    StartOfLineNonSpace,
    EndOfLine,
    Line(u32),
    FindCharacter { count: u32, ch: char, forward: bool },
    Left,
    Right,
    Up(u32),
    Down(u32),
}

/// What a motion does to one selection.
spec fn motion_spec(m: Motion, rows: Seq<Seq<char>>, anchor: bool) -> spec_fn(Selection) -> Selection {
    match m {
        Motion::Collapse => collapse_motion(),
        Motion::StartOfDocument => start_of_document_motion(anchor),
        Motion::EndOfDocument => end_of_document_motion(rows, anchor),
        Motion::StartOfLine => start_of_line_motion(anchor),
        Motion::StartOfLineNonSpace => start_of_line_non_space_motion(rows, anchor),
        Motion::EndOfLine => end_of_line_motion(rows, anchor),
        Motion::Line(line) => line_motion(rows, anchor, line),
        Motion::FindCharacter { count, ch, forward } => find_character_motion(rows, anchor, count, ch, forward),
        Motion::Left => left_motion(rows, anchor),
        Motion::Right => right_motion(rows, anchor),
        Motion::Up(goal) => up_motion(rows, anchor, goal),
        Motion::Down(goal) => down_motion(rows, anchor, goal),
    }
}

/// Whether a motion can be applied to `s`.
spec fn motion_applies(m: Motion, rows: Seq<Seq<char>>, s: Selection) -> bool {
    match m {
        Motion::StartOfLineNonSpace | Motion::EndOfLine => valid_position(rows, s.head_spec()),
        Motion::FindCharacter { count, ch, forward } => can_find_from(rows, s, forward),
        Motion::Left => can_step_left(rows, s.head_spec()),
        Motion::Right => can_step_right(rows, s.head_spec()),
        Motion::Up(goal) => can_move_up(rows, s.head_spec(), goal),
        Motion::Down(goal) => can_move_down(rows, s.head_spec(), goal),
        _ => true,
    }
}

/// Applies a motion to one selection.
fn apply_motion(m: &Motion, anchor: bool, s: Selection, buffer: &TextRows) -> (r: Selection)
    requires
        motion_applies(*m, buffer@, s),
    ensures
        r == motion_spec(*m, buffer@, anchor)(s),
{
    match m {
        Motion::Collapse => {
            let head = s.head();
            Selection { id: s.id, start: head, end: head, reversed: false }
        },
        Motion::StartOfDocument => s.move_to_start_of_document(anchor, buffer),
        Motion::EndOfDocument => s.move_to_end_of_document(anchor, buffer),
        Motion::StartOfLine => s.move_to_start_of_line(anchor, buffer),
        Motion::StartOfLineNonSpace => s.move_to_start_of_line_non_space(anchor, buffer),
        Motion::EndOfLine => s.move_to_end_of_line(anchor, buffer),
        Motion::Line(line) => s.move_to_line(anchor, *line, buffer),
        Motion::FindCharacter { count, ch, forward } => s.find_character(anchor, *count, *ch, *forward, buffer),
        Motion::Left => s.move_left_once(anchor, buffer),
        Motion::Right => s.move_right_once(anchor, buffer),
        Motion::Up(goal) => {
            let head = s.head();
            let row = if head.row > 0 { head.row - 1 } else { 0 };
            s.moved(anchor, vertical_target(head, *goal, row, buffer))
        },
        Motion::Down(goal) => {
            let head = s.head();
            if head.row < buffer.row_count() - 1 {
                s.moved(anchor, vertical_target(head, *goal, head.row + 1, buffer))
            } else {
                s.moved(anchor, buffer.max_point())
            }
        },
    }
}

/// Where a vertical motion puts a head on `row`; see [`vertical_point`].
fn vertical_target(head: Point, goal: u32, row: u32, buffer: &TextRows) -> (p: Point)
    requires
        row < buffer@.len(),
    ensures
        p == vertical_point(buffer@, head, goal, row as int),
{
    let len = buffer.line_len(row);
    let c = if goal < len { goal } else { head.column };
    Point::new(row, if c < len { c } else { len })
}

/// The selections of a document, the column that vertical motions aim for,
/// and the text last searched for.
pub struct SelectionCollection {
    pub id: usize,
    pub selections: Vec<Selection>,
    pub point: Point,
    pub search: String,
}

fn copy_selections(v: &Vec<Selection>) -> (r: Vec<Selection>)
    ensures
        r@ == v@,
{
    let mut r: Vec<Selection> = Vec::new();
    let mut i: usize = 0;
    while i < v.len()
        invariant
            i <= v@.len(),
            r@ == v@.subrange(0, i as int),
        decreases v@.len() - i,
    {
        r.push(v[i]);
        i = i + 1;
        proof {
            assert(r@ =~= v@.subrange(0, i as int));
        }
    }
    proof {
        assert(r@ =~= v@);
    }
    r
}

impl SelectionCollection {
    /// An empty collection.
    pub fn new() -> (c: SelectionCollection)
        ensures
            c.id == 0,
            c.selections@.len() == 0,
            c.point == (Point { row: 0, column: 0 }),
            c.search@.len() == 0,
    {
        SelectionCollection { id: 0, selections: Vec::new(), point: Point::new(0, 0), search: String::new() }
    }

    /// The first selection.
    pub fn first(&self) -> (r: Option<&Selection>)
        ensures
            r == if self.selections@.len() > 0 { Some(&self.selections@[0]) } else { None::<&Selection> },
    {
        if self.selections.len() > 0 {
            Some(&self.selections[0])
        } else {
            None
        }
    }

    /// The last selection.
    pub fn last(&self) -> (r: Option<&Selection>)
        ensures
            r == if self.selections@.len() > 0 {
                Some(&self.selections@[self.selections@.len() - 1])
            } else {
                None::<&Selection>
            },
    {
        let n = self.selections.len();
        if n > 0 {
            Some(&self.selections[n - 1])
        } else {
            None
        }
    }

    /// Adds an empty selection at `point` with the next id, and returns it.
    pub fn add(&mut self, point: Point) -> (sel: Selection)
        requires
            old(self).id < usize::MAX,
        ensures
            sel == (Selection { id: old(self).id, start: point, end: point, reversed: false }),
            final(self).selections@ == old(self).selections@.push(sel),
            final(self).id == old(self).id + 1,
            final(self).point == old(self).point,
            final(self).search@ == old(self).search@,
    {
        let sel = Selection { id: self.id, start: point, end: point, reversed: false };
        self.selections.push(sel);
        self.id = self.id + 1;
        sel
    }

    /// Replaces the first selection with the id of `selection` by it.
    pub fn update(&mut self, _buffer: &TextRows, selection: &Selection)
        ensures
            final(self).selections@ == updated(old(self).selections@, *selection),
            final(self).id == old(self).id,
            final(self).point == old(self).point,
            final(self).search@ == old(self).search@,
    {
        let n = self.selections.len();
        let mut i: usize = 0;
        while i < n
            invariant
                n == self.selections@.len(),
                self.selections@ == old(self).selections@,
                self.id == old(self).id,
                self.point == old(self).point,
                self.search@ == old(self).search@,
                i <= n,
                first_with_id(self.selections@, selection.id, 0) == first_with_id(self.selections@, selection.id, i as int),
            decreases n - i,
        {
            if self.selections[i].id == selection.id {
                self.selections.set(i, *selection);
                return;
            }
            i = i + 1;
        }
    }

    /// Removes every selection.
    pub fn clear(&mut self)
        ensures
            final(self).selections@.len() == 0,
            final(self).id == old(self).id,
            final(self).point == old(self).point,
            final(self).search@ == old(self).search@,
    {
        self.selections.clear();
    }

    /// Whether the position (`row`, `column`) is inside every selection,
    /// whether its row lies within every selection's rows, and whether it is
    /// at the head of a selection; the walk stops at the first selection
    /// whose head it is while it is still inside all of them.
    pub fn is_selected(&self, row: u32, column: u32, _buffer: &TextRows) -> (r: (bool, bool, bool))
        ensures
            r == selected_from(self.selections@, 0, row, column, (true, true, false)),
    {
        let n = self.selections.len();
        let mut within = true;
        let mut within_line = true;
        let mut at_head = false;
        let mut i: usize = 0;
        let mut done = false;
        while i < n && !done
            invariant
                n == self.selections@.len(),
                i <= n,
                done ==> selected_from(self.selections@, 0, row, column, (true, true, false)) == (within, within_line, at_head),
                !done ==> selected_from(self.selections@, 0, row, column, (true, true, false)) == selected_from(
                    self.selections@,
                    i as int,
                    row,
                    column,
                    (within, within_line, at_head),
                ),
            decreases n - i + (if done { 0int } else { 1int }),
        {
            let cursor = self.selections[i];
            let head = cursor.head();
            let tail = cursor.tail();
            let head_first = head.lt(&tail);
            let start = if head_first { head } else { tail };
            let end = if head_first { tail } else { head };
            if row < start.row || row > end.row {
                within = false;
                within_line = false;
                at_head = false;
            } else if row == start.row && column < start.column {
                within = false;
                at_head = false;
            } else if row == end.row && column > end.column {
                within = false;
                at_head = false;
            } else {
                if row == start.row && head_first && column == start.column {
                    at_head = true;
                }
                if row == end.row && !head_first && column == end.column {
                    at_head = true;
                }
                if within && at_head {
                    done = true;
                }
            }
            if !done {
                i = i + 1;
            }
        }
        (within, within_line, at_head)
    }

    /// Whether some selection is not empty.
    pub fn has_selection(&self, _buffer: &TextRows) -> (b: bool)
        ensures
            b == exists|i: int| 0 <= i < self.selections@.len() && #[trigger] self.selections@[i].head_spec() != self.selections@[i].tail_spec(),
    {
        let n = self.selections.len();
        let mut i: usize = 0;
        while i < n
            invariant
                n == self.selections@.len(),
                i <= n,
                forall|j: int| 0 <= j < i ==> #[trigger] self.selections@[j].head_spec() == self.selections@[j].tail_spec(),
            decreases n - i,
        {
            let cursor = self.selections[i];
            if cursor.head() != cursor.tail() {
                return true;
            }
            i = i + 1;
        }
        false
    }

    /// Updates the collection with a motion applied to each of its
    /// selections, in order; with `track`, the goal column follows the moved
    /// heads.
    fn move_each(&mut self, m: Motion, anchor: bool, buffer: &TextRows, track: bool)
        requires
            forall|i: int| 0 <= i < old(self).selections@.len() ==> motion_applies(m, buffer@, #[trigger] old(self).selections@[i]),
        ensures
            final(self).selections@ == update_each(old(self).selections@, old(self).selections@, motion_spec(m, buffer@, anchor)),
            ids_distinct(old(self).selections@) ==> final(self).selections@ == old(self).selections@.map_values(
                motion_spec(m, buffer@, anchor),
            ),
            final(self).id == old(self).id,
            final(self).point == if track && old(self).selections@.len() > 0 {
                motion_spec(m, buffer@, anchor)(old(self).selections@.last()).head_spec()
            } else {
                old(self).point
            },
            final(self).search@ == old(self).search@,
    {
        let ghost f = motion_spec(m, buffer@, anchor);
        let cursors = copy_selections(&self.selections);
        let n = cursors.len();
        let mut i: usize = 0;
        proof {
            assert(cursors@.subrange(0, n as int) =~= cursors@);
        }
        while i < n
            invariant
                n == cursors@.len(),
                cursors@ == old(self).selections@,
                f == motion_spec(m, buffer@, anchor),
                i <= n,
                forall|j: int| 0 <= j < n ==> motion_applies(m, buffer@, #[trigger] cursors@[j]),
                update_each(self.selections@, cursors@.subrange(i as int, n as int), f) == update_each(
                    old(self).selections@,
                    old(self).selections@,
                    f,
                ),
                self.id == old(self).id,
                self.point == if track && i > 0 {
                    f(cursors@[i - 1]).head_spec()
                } else {
                    old(self).point
                },
                self.search@ == old(self).search@,
            decreases n - i,
        {
            let next = apply_motion(&m, anchor, cursors[i], buffer);
            if track {
                self.point = next.head();
            }
            proof {
                assert(cursors@.subrange(i as int, n as int).drop_first() =~= cursors@.subrange(i + 1, n as int));
            }
            self.update(buffer, &next);
            i = i + 1;
        }
        proof {
            assert(cursors@.subrange(n as int, n as int) =~= Seq::<Selection>::empty());
            if ids_distinct(old(self).selections@) {
                assert(keeps_ids(f));
                law_update_each_moves_every_selection(old(self).selections@, f);
            }
        }
    }

    /// Moves every selection `count` times over with a motion.
    fn repeat_each(&mut self, m: Motion, anchor: bool, count: u32, buffer: &TextRows, track: bool)
        requires
            forall|k: nat, i: int|
                k < count && 0 <= i < rounds(old(self).selections@, motion_spec(m, buffer@, anchor), k).len()
                    ==> motion_applies(
                    m,
                    buffer@,
                    #[trigger] rounds(old(self).selections@, motion_spec(m, buffer@, anchor), k)[i],
                ),
        ensures
            final(self).selections@ == rounds(old(self).selections@, motion_spec(m, buffer@, anchor), count as nat),
            final(self).id == old(self).id,
            final(self).point == if track && count > 0 && old(self).selections@.len() > 0 {
                motion_spec(m, buffer@, anchor)(
                    rounds(old(self).selections@, motion_spec(m, buffer@, anchor), (count - 1) as nat).last(),
                ).head_spec()
            } else {
                old(self).point
            },
            final(self).search@ == old(self).search@,
    {
        let ghost f = motion_spec(m, buffer@, anchor);
        let ghost start = self.selections@;
        let mut r: u32 = 0;
        while r < count
            invariant
                f == motion_spec(m, buffer@, anchor),
                start == old(self).selections@,
                r <= count,
                self.selections@ == rounds(start, f, r as nat),
                forall|k: nat, i: int|
                    k < count && 0 <= i < rounds(start, f, k).len() ==> motion_applies(
                        m,
                        buffer@,
                        #[trigger] rounds(start, f, k)[i],
                    ),
                self.id == old(self).id,
                self.point == if track && r > 0 && start.len() > 0 {
                    f(rounds(start, f, (r - 1) as nat).last()).head_spec()
                } else {
                    old(self).point
                },
                self.search@ == old(self).search@,
            decreases count - r,
        {
            proof {
                lemma_rounds_len(start, f, r as nat);
                assert forall|i: int| 0 <= i < self.selections@.len() implies motion_applies(
                    m,
                    buffer@,
                    #[trigger] self.selections@[i],
                ) by {
                    assert(rounds(start, f, r as nat)[i] == self.selections@[i]);
                }
            }
            self.move_each(m, anchor, buffer, track);
            r = r + 1;
        }
    }

    /// Collapses every selection onto its head.
    pub fn clear_selections(&mut self, buffer: &TextRows)
        ensures
            final(self).selections@ == update_each(old(self).selections@, old(self).selections@, collapse_motion()),
            ids_distinct(old(self).selections@) ==> final(self).selections@ == old(self).selections@.map_values(collapse_motion()),
            final(self).id == old(self).id,
    {
        self.move_each(Motion::Collapse, false, buffer, false);
    }

    /// Moves every head to the start of its row.
    pub fn move_to_start_of_line(&mut self, anchor: bool, buffer: &TextRows)
        ensures
            final(self).selections@ == update_each(old(self).selections@, old(self).selections@, start_of_line_motion(anchor)),
            ids_distinct(old(self).selections@) ==> final(self).selections@ == old(self).selections@.map_values(
                start_of_line_motion(anchor),
            ),
            final(self).id == old(self).id,
    {
        self.move_each(Motion::StartOfLine, anchor, buffer, false);
    }

    /// Moves every head to the first non-whitespace character of its row.
    pub fn move_to_start_of_line_non_space(&mut self, anchor: bool, buffer: &TextRows)
        requires
            heads_valid(buffer@, old(self).selections@),
        ensures
            final(self).selections@ == update_each(old(self).selections@, old(self).selections@, start_of_line_non_space_motion(buffer@, anchor)),
            ids_distinct(old(self).selections@) ==> final(self).selections@ == old(self).selections@.map_values(
                start_of_line_non_space_motion(buffer@, anchor),
            ),
            final(self).id == old(self).id,
    {
        self.move_each(Motion::StartOfLineNonSpace, anchor, buffer, false);
    }

    /// Moves every head to the end of its row.
    pub fn move_to_end_of_line(&mut self, anchor: bool, buffer: &TextRows)
        requires
            heads_valid(buffer@, old(self).selections@),
        ensures
            final(self).selections@ == update_each(old(self).selections@, old(self).selections@, end_of_line_motion(buffer@, anchor)),
            ids_distinct(old(self).selections@) ==> final(self).selections@ == old(self).selections@.map_values(
                end_of_line_motion(buffer@, anchor),
            ),
            final(self).id == old(self).id,
    {
        self.move_each(Motion::EndOfLine, anchor, buffer, false);
    }

    /// Moves every selection to the start of the one-based `line`.
    pub fn move_to_line(&mut self, anchor: bool, line: u32, buffer: &TextRows)
        ensures
            final(self).selections@ == update_each(old(self).selections@, old(self).selections@, line_motion(buffer@, anchor, line)),
            ids_distinct(old(self).selections@) ==> final(self).selections@ == old(self).selections@.map_values(
                line_motion(buffer@, anchor, line),
            ),
            final(self).id == old(self).id,
    {
        self.move_each(Motion::Line(line), anchor, buffer, false);
    }

    /// Moves every head onto the `count`-th `ch` after (`forward`) or before it
    /// on its row; a selection with fewer such characters stays as it is.
    pub fn find_character(&mut self, anchor: bool, count: u32, ch: char, forward: bool, buffer: &TextRows)
        requires
            forall|i: int| 0 <= i < old(self).selections@.len() ==> can_find_from(buffer@, #[trigger] old(self).selections@[i], forward),
        ensures
            final(self).selections@ == update_each(old(self).selections@, old(self).selections@, find_character_motion(buffer@, anchor, count, ch, forward)),
            ids_distinct(old(self).selections@) ==> final(self).selections@ == old(self).selections@.map_values(
                find_character_motion(buffer@, anchor, count, ch, forward),
            ),
            final(self).id == old(self).id,
    {
        self.move_each(Motion::FindCharacter { count, ch, forward }, anchor, buffer, false);
    }

    /// Moves every head to the start of the document.
    pub fn move_to_start_of_document(&mut self, anchor: bool, buffer: &TextRows)
        ensures
            final(self).selections@ == update_each(old(self).selections@, old(self).selections@, start_of_document_motion(anchor)),
            ids_distinct(old(self).selections@) ==> final(self).selections@ == old(self).selections@.map_values(
                start_of_document_motion(anchor),
            ),
            final(self).id == old(self).id,
    {
        self.move_each(Motion::StartOfDocument, anchor, buffer, false);
    }

    /// Moves every head to the end of the document.
    pub fn move_to_end_of_document(&mut self, anchor: bool, buffer: &TextRows)
        ensures
            final(self).selections@ == update_each(old(self).selections@, old(self).selections@, end_of_document_motion(buffer@, anchor)),
            ids_distinct(old(self).selections@) ==> final(self).selections@ == old(self).selections@.map_values(
                end_of_document_motion(buffer@, anchor),
            ),
            final(self).id == old(self).id,
    {
        self.move_each(Motion::EndOfDocument, anchor, buffer, false);
    }

    /// Moves every head `count` characters left, one character per round,
    /// aiming vertical motions at the last head moved.
    pub fn move_left(&mut self, anchor: bool, count: u32, buffer: &TextRows)
        requires
            left_rounds_ok(buffer@, anchor, old(self).selections@, count as nat),
        ensures
            final(self).selections@ == rounds(old(self).selections@, left_motion(buffer@, anchor), count as nat),
            final(self).point == if count > 0 && old(self).selections@.len() > 0 {
                left_motion(buffer@, anchor)(
                    rounds(old(self).selections@, left_motion(buffer@, anchor), (count - 1) as nat).last(),
                ).head_spec()
            } else {
                old(self).point
            },
            final(self).id == old(self).id,
    {
        self.repeat_each(Motion::Left, anchor, count, buffer, true);
    }

    /// Moves every head `count` characters right, one character per round,
    /// aiming vertical motions at the last head moved.
    pub fn move_right(&mut self, anchor: bool, count: u32, buffer: &TextRows)
        requires
            right_rounds_ok(buffer@, anchor, old(self).selections@, count as nat),
        ensures
            final(self).selections@ == rounds(old(self).selections@, right_motion(buffer@, anchor), count as nat),
            final(self).point == if count > 0 && old(self).selections@.len() > 0 {
                right_motion(buffer@, anchor)(
                    rounds(old(self).selections@, right_motion(buffer@, anchor), (count - 1) as nat).last(),
                ).head_spec()
            } else {
                old(self).point
            },
            final(self).id == old(self).id,
    {
        self.repeat_each(Motion::Right, anchor, count, buffer, true);
    }

    /// Moves every head `count` rows up, aiming at the goal column.
    pub fn move_up(&mut self, anchor: bool, count: u32, buffer: &TextRows)
        requires
            up_rounds_ok(buffer@, anchor, old(self).point.column, old(self).selections@, count as nat),
        ensures
            final(self).selections@ == rounds(
                old(self).selections@,
                up_motion(buffer@, anchor, old(self).point.column),
                count as nat,
            ),
            final(self).point == old(self).point,
            final(self).id == old(self).id,
    {
        let goal = self.point.column;
        self.repeat_each(Motion::Up(goal), anchor, count, buffer, false);
    }

    /// Moves every head `count` rows down, aiming at the goal column.
    pub fn move_down(&mut self, anchor: bool, count: u32, buffer: &TextRows)
        requires
            down_rounds_ok(buffer@, anchor, old(self).point.column, old(self).selections@, count as nat),
        ensures
            final(self).selections@ == rounds(
                old(self).selections@,
                down_motion(buffer@, anchor, old(self).point.column),
                count as nat,
            ),
            final(self).point == old(self).point,
            final(self).id == old(self).id,
    {
        let goal = self.point.column;
        self.repeat_each(Motion::Down(goal), anchor, count, buffer, false);
    }
}

} // verus!
