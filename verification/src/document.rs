//! A document: its text row by row, its selections, its mode and its folds.
//! Columns within a row count bytes, as the buffer's points do.
use vstd::prelude::*;
use vstd::utf8::encode_utf8;
use crate::actions::{count_spec, with_count_spec, Action, Mode};
use crate::fold_map::Fold;
use crate::point::{point_le, point_lt, Point};
use crate::selections::{updated, Selection, SelectionCollection};
use crate::search::{
    byte_offset, char_width, lemma_encode_concat, lemma_offset_bound, lemma_offset_step, lemma_scalar_len_pos,
};
use crate::text_util::{chars_to_string, str_to_chars};

verus! {

/// The rows of `s[i..]`, where the row being read began at `start`. `\n`,
/// `\r\n` and a lone `\r` each end a row and are not part of it.
pub open spec fn rows_from(s: Seq<char>, i: int, start: int) -> Seq<Seq<char>>
    decreases s.len() - i,
{
    if i >= s.len() {
        seq![s.subrange(start, s.len() as int)]
    } else if s[i] == '\n' {
        seq![s.subrange(start, i)] + rows_from(s, i + 1, i + 1)
    } else if s[i] == '\r' {
        if i + 1 < s.len() && s[i + 1] == '\n' {
            seq![s.subrange(start, i)] + rows_from(s, i + 2, i + 2)
        } else {
            seq![s.subrange(start, i)] + rows_from(s, i + 1, i + 1)
        }
    } else {
        rows_from(s, i + 1, start)
    }
}

/// The rows of a text, line endings removed.
pub open spec fn rows_of(s: Seq<char>) -> Seq<Seq<char>> {
    rows_from(s, 0, 0)
}

/// The length of a row in bytes.
pub open spec fn row_bytes(row: Seq<char>) -> int {
    encode_utf8(row).len() as int
}

/// The bytes of `s[a..b]` are the bytes between the offsets of `a` and `b`.
pub proof fn lemma_subrange_bytes(s: Seq<char>, a: int, b: int)
    requires
        0 <= a <= b <= s.len(),
    ensures
        row_bytes(s.subrange(a, b)) == byte_offset(s, b) - byte_offset(s, a),
{
    assert(s.subrange(0, b) =~= s.subrange(0, a) + s.subrange(a, b));
    lemma_encode_concat(s.subrange(0, a), s.subrange(a, b));
}

/// There are at least as many bytes as characters.
pub proof fn lemma_chars_le_bytes(s: Seq<char>, i: int)
    requires
        0 <= i <= s.len(),
    ensures
        i <= byte_offset(s, i),
    decreases i,
{
    if i > 0 {
        lemma_chars_le_bytes(s, i - 1);
        lemma_offset_step(s, i - 1);
        lemma_scalar_len_pos(s[i - 1]);
    }
}

/// Reading the text of one row of a buffer.
pub trait BufferText {
    /// The characters of `row`.
    spec fn row_spec(&self, row: int) -> Seq<char>;

    /// The text of `row`, without its line ending.
    fn row_text(&self, row: u32) -> (s: String)
        ensures
            s@ == self.row_spec(row as int),
    ;
}

/// The text of a document as rows of characters, with the byte length of
/// each row. A document always has at least one row.
pub struct TextRows {
    rows: Vec<Vec<char>>,
    lens: Vec<u32>,
}

impl View for TextRows {
    type V = Seq<Seq<char>>;

    closed spec fn view(&self) -> Seq<Seq<char>> {
        self.rows@.map_values(|r: Vec<char>| r@)
    }
}

impl TextRows {
    #[verifier::type_invariant]
    spec fn inv(self) -> bool {
        &&& 1 <= self.rows@.len() <= u32::MAX
        &&& self.lens@.len() == self.rows@.len()
        &&& forall|r: int| 0 <= r < self.rows@.len() ==> #[trigger] self.lens@[r] == row_bytes(self.rows@[r]@)
    }

    /// Splits a text into rows at its line endings.
    pub fn from_text(text: &str) -> (t: TextRows)
        requires
            encode_utf8(text@).len() < u32::MAX,
        ensures
            t@ == rows_of(text@),
    {
        let chars = str_to_chars(text);
        let ghost s = text@;
        let n = chars.len();
        let mut rows: Vec<Vec<char>> = Vec::new();
        let mut lens: Vec<u32> = Vec::new();
        let mut cur: Vec<char> = Vec::new();
        let mut cur_len: u32 = 0;
        let mut start: usize = 0;
        let mut i: usize = 0;
        proof {
            lemma_chars_le_bytes(s, s.len() as int);
            assert(s.subrange(0, s.len() as int) =~= s);
            assert(s.subrange(0, 0) =~= Seq::<char>::empty());
        }
        while i < n
            invariant
                chars@ == s,
                n == s.len(),
                encode_utf8(s).len() < u32::MAX,
                n <= encode_utf8(s).len(),
                start <= i <= n,
                cur@ == s.subrange(start as int, i as int),
                cur_len == byte_offset(s, i as int) - byte_offset(s, start as int),
                rows@.len() == lens@.len(),
                rows@.len() <= start,
                forall|r: int| 0 <= r < rows@.len() ==> #[trigger] lens@[r] == row_bytes(rows@[r]@),
                rows@.map_values(|r: Vec<char>| r@) + rows_from(s, i as int, start as int) == rows_of(s),
            decreases n - i,
        {
            let c = chars[i];
            let ghost before = rows@.map_values(|r: Vec<char>| r@);
            if c == '\n' || c == '\r' {
                let crlf = c == '\r' && i + 1 < n && chars[i + 1] == '\n';
                proof {
                    lemma_subrange_bytes(s, start as int, i as int);
                    assert(rows@.push(cur).map_values(|r: Vec<char>| r@) =~= before + seq![cur@]);
                }
                rows.push(cur);
                lens.push(cur_len);
                cur = Vec::new();
                cur_len = 0;
                if crlf {
                    i = i + 2;
                } else {
                    i = i + 1;
                }
                start = i;
                proof {
                    assert(s.subrange(start as int, start as int) =~= Seq::<char>::empty());
                    assert forall|r: int| 0 <= r < rows@.len() implies #[trigger] lens@[r] == row_bytes(rows@[r]@) by {
                        if r < rows@.len() - 1 {
                        }
                    }
                }
            } else {
                proof {
                    lemma_offset_step(s, i as int);
                    lemma_offset_bound(s, i + 1);
                    lemma_subrange_bytes(s, start as int, i + 1);
                    assert(byte_offset(s, start as int) >= 0);
                    assert(s.subrange(start as int, i + 1) =~= s.subrange(start as int, i as int).push(c));
                }
                cur.push(c);
                cur_len = cur_len + char_width(c) as u32;
                i = i + 1;
            }
        }
        proof {
            lemma_subrange_bytes(s, start as int, n as int);
            assert(rows@.push(cur).map_values(|r: Vec<char>| r@) =~= rows@.map_values(|r: Vec<char>| r@) + seq![cur@]);
        }
        rows.push(cur);
        lens.push(cur_len);
        proof {
            assert(rows@.map_values(|r: Vec<char>| r@) =~= rows_of(s));
        }
        TextRows { rows, lens }
    }

    /// Number of rows.
    pub fn row_count(&self) -> (n: u32)
        ensures
            n == self@.len(),
            n >= 1,
    {
        proof {
            use_type_invariant(self);
        }
        self.rows.len() as u32
    }

    /// Length of `row` in bytes; zero past the last row.
    pub fn line_len(&self, row: u32) -> (l: u32)
        ensures
            l == if row < self@.len() { row_bytes(self@[row as int]) } else { 0 },
    {
        proof {
            use_type_invariant(self);
        }
        if (row as usize) < self.lens.len() {
            self.lens[row as usize]
        } else {
            0
        }
    }

    /// The characters of `row`.
    pub fn row_chars(&self, row: u32) -> (v: &Vec<char>)
        requires
            row < self@.len(),
        ensures
            v@ == self@[row as int],
    {
        &self.rows[row as usize]
    }

    /// The end of the last row.
    pub fn max_point(&self) -> (p: Point)
        ensures
            self@.len() >= 1,
            p.row == self@.len() - 1,
            p.column == row_bytes(self@[self@.len() - 1]),
    {
        proof {
            use_type_invariant(self);
        }
        let n = self.rows.len();
        Point { row: (n - 1) as u32, column: self.lens[n - 1] }
    }
}

impl BufferText for TextRows {
    open spec fn row_spec(&self, row: int) -> Seq<char> {
        if 0 <= row < self@.len() {
            self@[row]
        } else {
            Seq::empty()
        }
    }

    fn row_text(&self, row: u32) -> (s: String) {
        if (row as usize) < self.rows.len() {
            chars_to_string(self.rows[row as usize].as_slice())
        } else {
            String::new()
        }
    }
}


/// Whether an action moves the cursor rightwards or down, so that a head
/// inside a fold leaves it by its end rather than its start.
pub open spec fn moves_right(action: Action) -> bool {
    match action {
        Action::MoveRight { .. } | Action::MoveDown { .. } | Action::MoveToWord { .. } | Action::MoveToWordEnd { .. }
        | Action::MoveToBigWord { .. } | Action::MoveToEndOfLine { .. } | Action::MoveToEndOfDocument { .. }
        | Action::MoveToEndOfNextLine { .. } => true,
        _ => false,
    }
}

/// Whether `p` lies strictly inside `fold`.
pub open spec fn strictly_inside(fold: Fold, p: Point) -> bool {
    point_lt(fold.start, p) && point_lt(p, fold.end)
}

/// Whether `p` lies inside `fold`, its ends included.
pub open spec fn inside(fold: Fold, p: Point) -> bool {
    point_le(fold.start, p) && point_le(p, fold.end)
}

/// Where a head `h` goes when it lies strictly inside one of `folds` from
/// index `i` on: the end (when moving right) or the start of the first
/// such fold; `h` itself where there is none.
pub open spec fn snapped_head(folds: Seq<Fold>, h: Point, right: bool, i: int) -> Point
    decreases folds.len() - i,
{
    if i >= folds.len() || i < 0 {
        h
    } else if strictly_inside(folds[i], h) {
        if right {
            folds[i].end
        } else {
            folds[i].start
        }
    } else {
        snapped_head(folds, h, right, i + 1)
    }
}

/// A selection whose head moved out of a fold: it runs from its tail (or
/// the new head, where it was empty) to the new head, reversed when the new
/// head comes first.
pub open spec fn snapped(sel: Selection, new_head: Point) -> Selection {
    let head = sel.head_spec();
    let tail = sel.tail_spec();
    let new_anchor = if tail == head { new_head } else { tail };
    Selection { id: sel.id, start: new_anchor, end: new_head, reversed: point_lt(new_head, new_anchor) }
}

/// `sels` after the selections of `cursors` whose heads lie inside a fold
/// have been snapped out of it, in order.
pub open spec fn snap_updates(sels: Seq<Selection>, cursors: Seq<Selection>, folds: Seq<Fold>, right: bool) -> Seq<Selection>
    decreases cursors.len(),
{
    if cursors.len() == 0 {
        sels
    } else {
        let c = cursors[0];
        let nh = snapped_head(folds, c.head_spec(), right, 0);
        let next = if nh != c.head_spec() {
            updated(sels, snapped(c, nh))
        } else {
            sels
        };
        snap_updates(next, cursors.drop_first(), folds, right)
    }
}

/// Whether some head of `sels` lies inside `fold`.
pub open spec fn holds_a_head(sels: Seq<Selection>, fold: Fold) -> bool {
    exists|i: int| 0 <= i < sels.len() && inside(fold, #[trigger] sels[i].head_spec())
}

/// Whether a fold holds no head of `sels`: the folds that `unfold` keeps.
pub open spec fn keeps_fold(sels: Seq<Selection>) -> spec_fn(Fold) -> bool {
    |f: Fold| !holds_a_head(sels, f)
}

/// Whether an action moves rightwards or down.
fn action_moves_right(action: &Action) -> (b: bool)
    ensures
        b == moves_right(*action),
{
    match action {
        Action::MoveRight { .. } | Action::MoveDown { .. } | Action::MoveToWord { .. } | Action::MoveToWordEnd { .. }
        | Action::MoveToBigWord { .. } | Action::MoveToEndOfLine { .. } | Action::MoveToEndOfDocument { .. }
        | Action::MoveToEndOfNextLine { .. } => true,
        _ => false,
    }
}

/// Where a head goes out of the first fold that holds it strictly inside.
fn snap_head(folds: &Vec<Fold>, head: Point, right: bool) -> (p: Point)
    ensures
        p == snapped_head(folds@, head, right, 0),
{
    let n = folds.len();
    let mut i: usize = 0;
    while i < n
        invariant
            n == folds@.len(),
            i <= n,
            snapped_head(folds@, head, right, 0) == snapped_head(folds@, head, right, i as int),
        decreases n - i,
    {
        let fold = folds[i];
        if fold.start.lt(&head) && head.lt(&fold.end) {
            return if right { fold.end } else { fold.start };
        }
        i = i + 1;
    }
    head
}

/// A document: its text, its selections, its editing mode and the ranges
/// folded away.
pub struct Document {
    pub text: TextRows,
    pub selections: SelectionCollection,
    pub mode: Mode,
    pub folds: Vec<Fold>,
}

impl Document {
    /// The rows of the text.
    pub open spec fn rows(&self) -> Seq<Seq<char>> {
        self.text@
    }

    /// The selections.
    pub open spec fn sels(&self) -> Seq<Selection> {
        self.selections.selections@
    }

    /// The selection collection.
    pub open spec fn collection(&self) -> SelectionCollection {
        self.selections
    }

    /// The editing mode.
    pub open spec fn mode_spec(&self) -> Mode {
        self.mode
    }

    /// A document holding `contents`, in normal mode, with one empty
    /// selection at its start and nothing folded.
    pub fn new_with_text(contents: &str) -> (d: Document)
        requires
            encode_utf8(contents@).len() < u32::MAX,
        ensures
            d.rows() == rows_of(contents@),
            d.sels() == seq![Selection { id: 0, start: Point { row: 0, column: 0 }, end: Point { row: 0, column: 0 }, reversed: false }],
            d.collection().id == 1,
            d.collection().point == (Point { row: 0, column: 0 }),
            d.mode_spec() == Mode::Normal,
            d.folds@.len() == 0,
    {
        let text = TextRows::from_text(contents);
        let mut selections = SelectionCollection::new();
        selections.add(Point::new(0, 0));
        proof {
            assert(selections.selections@ =~= seq![Selection { id: 0, start: Point { row: 0, column: 0 }, end: Point { row: 0, column: 0 }, reversed: false }]);
        }
        Document { text, selections, mode: Mode::Normal, folds: Vec::new() }
    }

    /// The text.
    pub fn buffer(&self) -> (t: &TextRows)
        ensures
            t@ == self.rows(),
    {
        &self.text
    }

    /// The editing mode.
    pub fn current_mode(&self) -> (m: Mode)
        ensures
            m == self.mode_spec(),
    {
        self.mode
    }

    /// The selections.
    pub fn selections(&self) -> (c: &SelectionCollection)
        ensures
            *c == self.collection(),
            c.selections@ == self.sels(),
    {
        &self.selections
    }

    /// The first selection.
    pub fn selection(&self) -> (s: Selection)
        requires
            self.sels().len() > 0,
        ensures
            s == self.sels()[0],
    {
        self.selections.selections[0]
    }

    /// Adds an empty selection at the start of the document.
    pub fn add_selection(&mut self) -> (s: Selection)
        requires
            old(self).collection().id < usize::MAX,
        ensures
            s == (Selection { id: old(self).collection().id, start: Point { row: 0, column: 0 }, end: Point { row: 0, column: 0 }, reversed: false }),
            final(self).sels() == old(self).sels().push(s),
            final(self).collection().id == old(self).collection().id + 1,
            final(self).rows() == old(self).rows(),
            final(self).mode_spec() == old(self).mode_spec(),
            final(self).folds@ == old(self).folds@,
    {
        self.selections.add(Point::new(0, 0))
    }

    /// Whether some selection is not empty.
    pub fn has_selection(&self) -> (b: bool)
        ensures
            b == exists|i: int|
                0 <= i < self.selections.selections@.len() && #[trigger] self.selections.selections@[i].head_spec()
                    != self.selections.selections@[i].tail_spec(),
    {
        self.selections.has_selection(&self.text)
    }

    /// Unfolds every fold that holds a selection's head.
    pub fn unfold(&mut self, _count: u32)
        ensures
            final(self).folds@ == old(self).folds@.filter(keeps_fold(old(self).sels())),
            final(self).sels() == old(self).sels(),
            final(self).collection() == old(self).collection(),
            final(self).rows() == old(self).rows(),
            final(self).mode_spec() == old(self).mode_spec(),
    {
        let ghost heads = self.selections.selections@;
        let n = self.folds.len();
        let mut kept: Vec<Fold> = Vec::new();
        let mut i: usize = 0;
        while i < n
            invariant
                n == self.folds@.len(),
                self.folds@ == old(self).folds@,
                heads == self.selections.selections@,
                heads == old(self).sels(),
                i <= n,
                kept@ == self.folds@.take(i as int).filter(keeps_fold(heads)),
            decreases n - i,
        {
            let fold = self.folds[i];
            let m = self.selections.selections.len();
            let mut j: usize = 0;
            let mut hit = false;
            while j < m && !hit
                invariant
                    m == heads.len(),
                    heads == self.selections.selections@,
                    j <= m,
                    hit ==> holds_a_head(heads, fold),
                    !hit ==> forall|k: int| 0 <= k < j ==> !inside(fold, #[trigger] heads[k].head_spec()),
                decreases m - j + (if hit { 0int } else { 1int }),
            {
                let head = self.selections.selections[j].head();
                if fold.start.le(&head) && head.le(&fold.end) {
                    hit = true;
                } else {
                    j = j + 1;
                }
            }
            proof {
                let keep = keeps_fold(heads);
                assert(self.folds@.take(i + 1) =~= self.folds@.take(i as int).push(fold));
                self.folds@.take(i as int).lemma_filter_push(fold, keep);
                assert(keep(fold) == !holds_a_head(heads, fold));
                if !hit {
                    assert(!holds_a_head(heads, fold));
                }
                assert(self.folds@.take(i + 1).filter(keep) == if keep(fold) {
                    self.folds@.take(i as int).filter(keep).push(fold)
                } else {
                    self.folds@.take(i as int).filter(keep)
                });
            }
            if !hit {
                kept.push(fold);
            }
            i = i + 1;
        }
        proof {
            assert(self.folds@.take(n as int) =~= self.folds@);
        }
        self.folds = kept;
    }

    /// Moves each head that lies strictly inside a fold out to the fold's end
    /// (for an action that moves right or down) or start, then aims vertical
    /// motions at the first selection's head. Nothing changes where nothing
    /// is folded.
    pub fn snap_selections_to_folds(&mut self, action: &Action)
        ensures
            old(self).folds@.len() == 0 ==> final(self).sels() == old(self).sels() && final(self).collection().point
                == old(self).collection().point,
            old(self).folds@.len() > 0 ==> final(self).sels() == snap_updates(
                old(self).sels(),
                old(self).sels(),
                old(self).folds@,
                moves_right(*action),
            ),
            old(self).folds@.len() > 0 ==> final(self).collection().point == if final(self).sels().len() > 0 {
                final(self).sels()[0].head_spec()
            } else {
                old(self).collection().point
            },
            final(self).collection().id == old(self).collection().id,
            final(self).folds@ == old(self).folds@,
            final(self).rows() == old(self).rows(),
            final(self).mode_spec() == old(self).mode_spec(),
    {
        if self.folds.len() == 0 {
            return;
        }
        let right = action_moves_right(action);
        let ghost start = self.selections.selections@;
        let n = self.selections.selections.len();
        let mut cursors: Vec<Selection> = Vec::new();
        let mut k: usize = 0;
        while k < n
            invariant
                n == self.selections.selections@.len(),
                self.selections.selections@ == start,
                k <= n,
                cursors@ == start.take(k as int),
            decreases n - k,
        {
            cursors.push(self.selections.selections[k]);
            k = k + 1;
            proof {
                assert(cursors@ =~= start.take(k as int));
            }
        }
        proof {
            assert(cursors@ =~= start);
            assert(cursors@.subrange(0, n as int) =~= cursors@);
        }
        let mut i: usize = 0;
        while i < n
            invariant
                n == cursors@.len(),
                cursors@ == start,
                start == old(self).sels(),
                right == moves_right(*action),
                i <= n,
                snap_updates(self.selections.selections@, cursors@.subrange(i as int, n as int), self.folds@, right)
                    == snap_updates(start, start, self.folds@, right),
                self.folds@ == old(self).folds@,
                self.text@ == old(self).text@,
                self.mode == old(self).mode,
                self.selections.id == old(self).selections.id,
                self.selections.point == old(self).selections.point,
            decreases n - i,
        {
            let cursor = cursors[i];
            let head = cursor.head();
            let new_head = snap_head(&self.folds, head, right);
            proof {
                assert(cursors@.subrange(i as int, n as int).drop_first() =~= cursors@.subrange(i + 1, n as int));
            }
            if new_head != head {
                let tail = cursor.tail();
                let new_anchor = if tail == head { new_head } else { tail };
                let sel = Selection { id: cursor.id, start: new_anchor, end: new_head, reversed: new_head.lt(&new_anchor) };
                self.selections.update(&self.text, &sel);
            }
            i = i + 1;
        }
        proof {
            assert(cursors@.subrange(n as int, n as int) =~= Seq::<Selection>::empty());
        }
        if self.selections.selections.len() > 0 {
            self.selections.point = self.selections.selections[0].head();
        }
    }
}

/// Whether `mode` is one of the visual modes.
pub open spec fn is_visual_mode(mode: Mode) -> bool {
    mode is Visual || mode is VisualLine || mode is VisualBlock
}

/// `a` made to extend the selection: the motions that carry a selection
/// flag get it set; every other action stays as it is.
pub open spec fn selecting_spec(a: Action) -> Action {
    match a {
        Action::StandBy { count, .. } => Action::StandBy { count, select: true },
        Action::MoveLeft { count, .. } => Action::MoveLeft { count, select: true },
        Action::MoveRight { count, .. } => Action::MoveRight { count, select: true },
        Action::MoveUp { count, .. } => Action::MoveUp { count, select: true },
        Action::MoveDown { count, .. } => Action::MoveDown { count, select: true },
        Action::MovePageUp { count, .. } => Action::MovePageUp { count, select: true },
        Action::MovePageDown { count, .. } => Action::MovePageDown { count, select: true },
        Action::MoveToWord { count, .. } => Action::MoveToWord { count, select: true },
        Action::MoveToPreviousWord { count, .. } => Action::MoveToPreviousWord { count, select: true },
        Action::MoveToWordEnd { count, .. } => Action::MoveToWordEnd { count, select: true },
        Action::MoveToPreviousWordEnd { count, .. } => Action::MoveToPreviousWordEnd { count, select: true },
        Action::MoveToBigWord { count, .. } => Action::MoveToBigWord { count, select: true },
        Action::MoveToPreviousBigWord { count, .. } => Action::MoveToPreviousBigWord { count, select: true },
        Action::MoveToBigWordEnd { count, .. } => Action::MoveToBigWordEnd { count, select: true },
        Action::MoveToStartOfDocument { count, .. } => Action::MoveToStartOfDocument { count, select: true },
        Action::MoveToEndOfDocument { count, .. } => Action::MoveToEndOfDocument { count, select: true },
        Action::MoveToStartOfLine { count, .. } => Action::MoveToStartOfLine { count, select: true },
        Action::MoveToStartOfLineNonSpace { count, .. } => Action::MoveToStartOfLineNonSpace { count, select: true },
        Action::MoveToEndOfLine { count, .. } => Action::MoveToEndOfLine { count, select: true },
        Action::MoveToStartOfPreviousLine { count, .. } => Action::MoveToStartOfPreviousLine { count, select: true },
        Action::MoveToEndOfPreviousLine { count, .. } => Action::MoveToEndOfPreviousLine { count, select: true },
        Action::MoveToStartOfNextLine { count, .. } => Action::MoveToStartOfNextLine { count, select: true },
        Action::MoveToEndOfNextLine { count, .. } => Action::MoveToEndOfNextLine { count, select: true },
        Action::MoveToScreenTop { count, .. } => Action::MoveToScreenTop { count, select: true },
        Action::MoveToScreenMiddle { count, .. } => Action::MoveToScreenMiddle { count, select: true },
        Action::MoveToScreenBottom { count, .. } => Action::MoveToScreenBottom { count, select: true },
        Action::MoveToPreviousParagraph { count, .. } => Action::MoveToPreviousParagraph { count, select: true },
        Action::MoveToNextParagraph { count, .. } => Action::MoveToNextParagraph { count, select: true },
        Action::MoveToPreviousSentence { count, .. } => Action::MoveToPreviousSentence { count, select: true },
        Action::MoveToNextSentence { count, .. } => Action::MoveToNextSentence { count, select: true },
        Action::MoveToNextCharacter { count, ch, .. } => Action::MoveToNextCharacter { count, ch, select: true },
        Action::MoveToPreviousCharacter { count, ch, .. } => Action::MoveToPreviousCharacter { count, ch, select: true },
        _ => a,
    }
}

/// See [`selecting_spec`].
pub fn selecting(a: &Action) -> (r: Action)
    ensures
        r == selecting_spec(*a),
{
    match a {
            Action::StandBy { count, .. } => Action::StandBy { count: *count, select: true },
            Action::MoveLeft { count, .. } => Action::MoveLeft { count: *count, select: true },
            Action::MoveRight { count, .. } => Action::MoveRight { count: *count, select: true },
            Action::MoveUp { count, .. } => Action::MoveUp { count: *count, select: true },
            Action::MoveDown { count, .. } => Action::MoveDown { count: *count, select: true },
            Action::MovePageUp { count, .. } => Action::MovePageUp { count: *count, select: true },
            Action::MovePageDown { count, .. } => Action::MovePageDown { count: *count, select: true },
            Action::MoveToWord { count, .. } => Action::MoveToWord { count: *count, select: true },
            Action::MoveToPreviousWord { count, .. } => Action::MoveToPreviousWord { count: *count, select: true },
            Action::MoveToWordEnd { count, .. } => Action::MoveToWordEnd { count: *count, select: true },
            Action::MoveToPreviousWordEnd { count, .. } => Action::MoveToPreviousWordEnd { count: *count, select: true },
            Action::MoveToBigWord { count, .. } => Action::MoveToBigWord { count: *count, select: true },
            Action::MoveToPreviousBigWord { count, .. } => Action::MoveToPreviousBigWord { count: *count, select: true },
            Action::MoveToBigWordEnd { count, .. } => Action::MoveToBigWordEnd { count: *count, select: true },
            Action::MoveToStartOfDocument { count, .. } => Action::MoveToStartOfDocument { count: *count, select: true },
            Action::MoveToEndOfDocument { count, .. } => Action::MoveToEndOfDocument { count: *count, select: true },
            Action::MoveToStartOfLine { count, .. } => Action::MoveToStartOfLine { count: *count, select: true },
            Action::MoveToStartOfLineNonSpace { count, .. } => Action::MoveToStartOfLineNonSpace { count: *count, select: true },
            Action::MoveToEndOfLine { count, .. } => Action::MoveToEndOfLine { count: *count, select: true },
            Action::MoveToStartOfPreviousLine { count, .. } => Action::MoveToStartOfPreviousLine { count: *count, select: true },
            Action::MoveToEndOfPreviousLine { count, .. } => Action::MoveToEndOfPreviousLine { count: *count, select: true },
            Action::MoveToStartOfNextLine { count, .. } => Action::MoveToStartOfNextLine { count: *count, select: true },
            Action::MoveToEndOfNextLine { count, .. } => Action::MoveToEndOfNextLine { count: *count, select: true },
            Action::MoveToScreenTop { count, .. } => Action::MoveToScreenTop { count: *count, select: true },
            Action::MoveToScreenMiddle { count, .. } => Action::MoveToScreenMiddle { count: *count, select: true },
            Action::MoveToScreenBottom { count, .. } => Action::MoveToScreenBottom { count: *count, select: true },
            Action::MoveToPreviousParagraph { count, .. } => Action::MoveToPreviousParagraph { count: *count, select: true },
            Action::MoveToNextParagraph { count, .. } => Action::MoveToNextParagraph { count: *count, select: true },
            Action::MoveToPreviousSentence { count, .. } => Action::MoveToPreviousSentence { count: *count, select: true },
            Action::MoveToNextSentence { count, .. } => Action::MoveToNextSentence { count: *count, select: true },
            Action::MoveToNextCharacter { count, ch, .. } => Action::MoveToNextCharacter { count: *count, ch: *ch, select: true },
            Action::MoveToPreviousCharacter { count, ch, .. } => Action::MoveToPreviousCharacter { count: *count, ch: *ch, select: true },
        _ => a.clone(),
    }
}

/// The action a document carries out for `a` in `mode`: in a visual mode
/// motions extend the selection.
pub open spec fn effective_action(mode: Mode, a: Action) -> Action {
    if is_visual_mode(mode) {
        selecting_spec(a)
    } else {
        a
    }
}

/// The selection flag of an action that carries one.
pub open spec fn select_flag(a: Action) -> Option<bool> {
    match a {
        Action::StandBy { select, .. } => Some(select),
        Action::MoveLeft { select, .. } => Some(select),
        Action::MoveRight { select, .. } => Some(select),
        Action::MoveUp { select, .. } => Some(select),
        Action::MoveDown { select, .. } => Some(select),
        Action::MovePageUp { select, .. } => Some(select),
        Action::MovePageDown { select, .. } => Some(select),
        Action::MoveToWord { select, .. } => Some(select),
        Action::MoveToPreviousWord { select, .. } => Some(select),
        Action::MoveToWordEnd { select, .. } => Some(select),
        Action::MoveToPreviousWordEnd { select, .. } => Some(select),
        Action::MoveToBigWord { select, .. } => Some(select),
        Action::MoveToPreviousBigWord { select, .. } => Some(select),
        Action::MoveToBigWordEnd { select, .. } => Some(select),
        Action::MoveToStartOfDocument { select, .. } => Some(select),
        Action::MoveToEndOfDocument { select, .. } => Some(select),
        Action::MoveToStartOfLine { select, .. } => Some(select),
        Action::MoveToStartOfLineNonSpace { select, .. } => Some(select),
        Action::MoveToEndOfLine { select, .. } => Some(select),
        Action::MoveToStartOfPreviousLine { select, .. } => Some(select),
        Action::MoveToEndOfPreviousLine { select, .. } => Some(select),
        Action::MoveToStartOfNextLine { select, .. } => Some(select),
        Action::MoveToEndOfNextLine { select, .. } => Some(select),
        Action::MoveToScreenTop { select, .. } => Some(select),
        Action::MoveToScreenMiddle { select, .. } => Some(select),
        Action::MoveToScreenBottom { select, .. } => Some(select),
        Action::MoveToPreviousParagraph { select, .. } => Some(select),
        Action::MoveToNextParagraph { select, .. } => Some(select),
        Action::MoveToPreviousSentence { select, .. } => Some(select),
        Action::MoveToNextSentence { select, .. } => Some(select),
        Action::MoveToNextCharacter { select, .. } => Some(select),
        Action::MoveToPreviousCharacter { select, .. } => Some(select),
        _ => None,
    }
}

/// The target character of a character motion.
pub open spec fn target_char(a: Action) -> Option<char> {
    match a {
        Action::MoveToNextCharacter { ch, .. } => Some(ch),
        Action::MoveToPreviousCharacter { ch, .. } => Some(ch),
        _ => None,
    }
}

/// In a visual mode every motion that carries a selection flag is carried
/// out as the same motion, with the same count and target, extending the
/// selection; every other action, and every action outside the visual
/// modes, is carried out as it is.
pub proof fn law_visual_motions_extend_the_selection(mode: Mode, a: Action)
    ensures
        ({
            let e = effective_action(mode, a);
            &&& (is_visual_mode(mode) && select_flag(a) is Some) ==> {
                &&& select_flag(e) == Some(true)
                &&& count_spec(e) == count_spec(a)
                &&& with_count_spec(e, 0) == with_count_spec(a, 0)
                &&& target_char(e) == target_char(a)
            }
            &&& (is_visual_mode(mode) && select_flag(a) is None) ==> e == a
            &&& !is_visual_mode(mode) ==> e == a
        }),
{
}

/// The action a document carries out after `a` in `mode`: insert mode
/// after a change or after opening a line with a motion; insert mode after
/// a delete in visual block mode; normal mode after a yank in a visual mode;
/// nothing otherwise.
pub open spec fn follow_up_action(mode: Mode, a: Action) -> Action {
    let e = effective_action(mode, a);
    if is_visual_mode(mode) && (e is Yank || e is YankLine || e is YankMotion) {
        Action::SetToNormal
    } else if mode is VisualBlock && (e is Delete || e is DeleteMotion) {
        Action::SetToInsert
    } else if e is InsertNewLineMotion || e is Change || e is ChangeLine || e is ChangeMotion {
        Action::SetToInsert
    } else {
        Action::NoOp
    }
}

/// What follows an action: a change of any kind, or opening a line with a
/// motion, goes to insert mode; in visual block mode so does a delete; in a
/// visual mode a yank returns to normal mode; nothing follows any other
/// action.
pub proof fn law_follow_up_actions(mode: Mode, a: Action)
    ensures
        (a is Change || a is ChangeLine || a is ChangeMotion || a is InsertNewLineMotion) ==> follow_up_action(
            mode,
            a,
        ) == Action::SetToInsert,
        (mode is VisualBlock && (a is Delete || a is DeleteMotion)) ==> follow_up_action(mode, a)
            == Action::SetToInsert,
        (is_visual_mode(mode) && (a is Yank || a is YankLine || a is YankMotion)) ==> follow_up_action(mode, a)
            == Action::SetToNormal,
        !(a is Change || a is ChangeLine || a is ChangeMotion || a is InsertNewLineMotion || (mode is VisualBlock && (
        a is Delete || a is DeleteMotion)) || (is_visual_mode(mode) && (a is Yank || a is YankLine || a is YankMotion)))
            ==> follow_up_action(mode, a) == Action::NoOp,
{
}

/// What applying `action` in `mode` comes to before the document changes:
/// the action carried out and the one that follows it; see
/// [`effective_action`] and [`follow_up_action`].
pub fn plan_action(mode: Mode, action: &Action) -> (r: (Action, Action))
    ensures
        r.0 == effective_action(mode, *action),
        r.1 == follow_up_action(mode, *action),
{
    let visual = mode.is_visual();
    let effective = if visual {
        selecting(action)
    } else {
        action.clone()
    };
    let mut next = Action::NoOp;
    match &effective {
        Action::InsertNewLineMotion { .. } | Action::Change { .. } | Action::ChangeLine { .. }
        | Action::ChangeMotion { .. } => {
            next = Action::SetToInsert;
        },
        _ => {},
    }
    if mode == Mode::VisualBlock {
        match &effective {
            Action::Delete { .. } | Action::DeleteMotion { .. } => {
                next = Action::SetToInsert;
            },
            _ => {},
        }
    }
    if visual {
        match &effective {
            Action::Yank { .. } | Action::YankLine { .. } | Action::YankMotion { .. } => {
                next = Action::SetToNormal;
            },
            _ => {},
        }
    }
    (effective, next)
}

} // verus!
