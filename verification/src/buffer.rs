//! Line geometry of a text buffer snapshot.
use vstd::prelude::*;
use crate::point::Point;
use vstd::string::StringSliceAdditionalSpecFns;

verus! {

/// Lengths (in bytes) of the lines of `bytes[i..]`, where the line being read
/// already holds `cur` bytes. `\n`, `\r\n` and a lone `\r` each end a line.
pub open spec fn lines_from(bytes: Seq<u8>, i: int, cur: int) -> Seq<int>
    decreases bytes.len() - i,
{
    if i >= bytes.len() {
        seq![cur]
    } else if bytes[i] == 10u8 {
        seq![cur] + lines_from(bytes, i + 1, 0)
    } else if bytes[i] == 13u8 {
        if i + 1 < bytes.len() && bytes[i + 1] == 10u8 {
            seq![cur] + lines_from(bytes, i + 2, 0)
        } else {
            seq![cur] + lines_from(bytes, i + 1, 0)
        }
    } else {
        lines_from(bytes, i + 1, cur + 1)
    }
}

/// Lengths of the lines of a text, after line endings are normalized.
pub open spec fn line_lengths(bytes: Seq<u8>) -> Seq<int> {
    lines_from(bytes, 0, 0)
}

/// The line geometry of a buffer snapshot: the length of each row. A buffer
/// always has at least one row.
#[derive(Debug)]
pub struct BufferSnapshot {
    line_lens: Vec<u32>,
}

impl View for BufferSnapshot {
    type V = Seq<u32>;

    closed spec fn view(&self) -> Seq<u32> {
        self.line_lens@
    }
}

impl Clone for BufferSnapshot {
    fn clone(&self) -> (c: Self)
        ensures
            c@ == self@,
    {
        BufferSnapshot { line_lens: self.line_lens.clone() }
    }
}

proof fn lemma_lines_from_nonempty(bytes: Seq<u8>, i: int, cur: int)
    ensures
        lines_from(bytes, i, cur).len() >= 1,
    decreases bytes.len() - i,
{
    if i >= bytes.len() {
    } else if bytes[i] == 10u8 {
        lemma_lines_from_nonempty(bytes, i + 1, 0);
    } else if bytes[i] == 13u8 {
        if i + 1 < bytes.len() && bytes[i + 1] == 10u8 {
            lemma_lines_from_nonempty(bytes, i + 2, 0);
        } else {
            lemma_lines_from_nonempty(bytes, i + 1, 0);
        }
    } else {
        lemma_lines_from_nonempty(bytes, i + 1, cur + 1);
    }
}

proof fn lemma_lines_from_bounded(bytes: Seq<u8>, i: int, cur: int)
    requires
        0 <= i <= bytes.len(),
        0 <= cur <= i,
    ensures
        lines_from(bytes, i, cur).len() <= bytes.len() - i + 1,
        forall|j: int| 0 <= j < lines_from(bytes, i, cur).len() ==> 0 <= #[trigger] lines_from(bytes, i, cur)[j] <= bytes.len(),
    decreases bytes.len() - i,
{
    let l = lines_from(bytes, i, cur);
    if i >= bytes.len() {
    } else if bytes[i] == 10u8 {
        lemma_lines_from_bounded(bytes, i + 1, 0);
        assert forall|j: int| 0 <= j < l.len() implies 0 <= #[trigger] l[j] <= bytes.len() by {
            if j > 0 {
                assert(l[j] == lines_from(bytes, i + 1, 0)[j - 1]);
            }
        }
    } else if bytes[i] == 13u8 {
        if i + 1 < bytes.len() && bytes[i + 1] == 10u8 {
            lemma_lines_from_bounded(bytes, i + 2, 0);
            assert forall|j: int| 0 <= j < l.len() implies 0 <= #[trigger] l[j] <= bytes.len() by {
                if j > 0 {
                    assert(l[j] == lines_from(bytes, i + 2, 0)[j - 1]);
                }
            }
        } else {
            lemma_lines_from_bounded(bytes, i + 1, 0);
            assert forall|j: int| 0 <= j < l.len() implies 0 <= #[trigger] l[j] <= bytes.len() by {
                if j > 0 {
                    assert(l[j] == lines_from(bytes, i + 1, 0)[j - 1]);
                }
            }
        }
    } else {
        lemma_lines_from_bounded(bytes, i + 1, cur + 1);
    }
}

impl BufferSnapshot {
    /// A snapshot is well formed when it has at least one row.
    pub open spec fn wf(&self) -> bool {
        self@.len() >= 1 && self@.len() <= u32::MAX
    }

    /// The last position of the buffer.
    pub open spec fn max_point_spec(&self) -> Point {
        Point { row: (self@.len() - 1) as u32, column: self@[self@.len() - 1] }
    }

    /// Builds the geometry of a text. Columns count bytes.
    pub fn from_text(text: &str) -> (b: BufferSnapshot)
        requires
            text.spec_bytes().len() < u32::MAX,
        ensures
            b.wf(),
            b@.len() == line_lengths(text.spec_bytes()).len(),
            forall|j: int| 0 <= j < b@.len() ==> b@[j] == #[trigger] line_lengths(text.spec_bytes())[j],
    {
        let bytes = text.as_bytes();
        let ghost bs = text.spec_bytes();
        let n = bytes.len();
        let mut lens: Vec<u32> = Vec::new();
        let mut cur: u32 = 0;
        let mut i: usize = 0;
        proof {
            lemma_lines_from_bounded(bs, 0, 0);
        }
        while i < n
            invariant
                n == bytes@.len(),
                bytes@ == bs,
                bs.len() < u32::MAX,
                0 <= i <= n,
                cur <= i,
                lens@.len() <= i,
                lens@.map_values(|x: u32| x as int) + lines_from(bs, i as int, cur as int) =~= line_lengths(bs),
            decreases n - i,
        {
            let b = bytes[i];
            if b == 10u8 {
                proof {
                    assert(lines_from(bs, i as int, cur as int) =~= seq![cur as int] + lines_from(bs, i + 1, 0));
                    assert(lens@.push(cur).map_values(|x: u32| x as int) =~= lens@.map_values(|x: u32| x as int) + seq![cur as int]);
                }
                lens.push(cur);
                cur = 0;
                i = i + 1;
            } else if b == 13u8 {
                proof {
                    assert(lens@.push(cur).map_values(|x: u32| x as int) =~= lens@.map_values(|x: u32| x as int) + seq![cur as int]);
                }
                lens.push(cur);
                cur = 0;
                if i + 1 < n && bytes[i + 1] == 10u8 {
                    i = i + 2;
                } else {
                    i = i + 1;
                }
            } else {
                cur = cur + 1;
                i = i + 1;
            }
        }
        proof {
            assert(lens@.push(cur).map_values(|x: u32| x as int) =~= lens@.map_values(|x: u32| x as int) + seq![cur as int]);
        }
        lens.push(cur);
        proof {
            lemma_lines_from_nonempty(bs, 0, 0);
            assert(lens@.map_values(|x: u32| x as int) =~= line_lengths(bs));
            assert forall|j: int| 0 <= j < lens@.len() implies lens@[j] == #[trigger] line_lengths(bs)[j] by {
                assert(lens@.map_values(|x: u32| x as int)[j] == lens@[j] as int);
            }
            lemma_lines_from_bounded(bs, 0, 0);
            assert(lens@.len() <= n + 1);
        }
        BufferSnapshot { line_lens: lens }
    }

    /// Builds a snapshot from row lengths; an empty list stands for one empty row.
    pub fn from_line_lens(line_lens: Vec<u32>) -> (b: BufferSnapshot)
        requires
            line_lens@.len() <= u32::MAX,
        ensures
            b.wf(),
            line_lens@.len() > 0 ==> b@ == line_lens@,
            line_lens@.len() == 0 ==> b@ == seq![0u32],
    {
        if line_lens.len() == 0 {
            let mut v: Vec<u32> = Vec::new();
            v.push(0);
            BufferSnapshot { line_lens: v }
        } else {
            BufferSnapshot { line_lens }
        }
    }

    /// The row lengths.
    pub fn line_lens(&self) -> (v: &Vec<u32>)
        ensures
            v@ == self@,
    {
        &self.line_lens
    }

    /// Number of rows.
    pub fn row_count(&self) -> (n: u32)
        requires
            self.wf(),
        ensures
            n == self@.len(),
    {
        self.line_lens.len() as u32
    }

    /// Length of `row`; zero past the last row.
    pub fn line_len(&self, row: u32) -> (len: u32)
        requires
            self.wf(),
        ensures
            len == if row < self@.len() { self@[row as int] } else { 0 },
    {
        if (row as usize) < self.line_lens.len() {
            self.line_lens[row as usize]
        } else {
            0
        }
    }

    /// The last position of the buffer: the end of its last row.
    pub fn max_point(&self) -> (p: Point)
        requires
            self.wf(),
        ensures
            p == self.max_point_spec(),
    {
        let n = self.line_lens.len();
        Point { row: (n - 1) as u32, column: self.line_lens[n - 1] }
    }

    /// Clips a point into the buffer: the row to the last row, the column to that row's length.
    pub fn clip_point(&self, point: Point) -> (p: Point)
        requires
            self.wf(),
        ensures
            p == clip_point_spec(self@, point),
    {
        let n = self.line_lens.len();
        let row: u32 = if (point.row as usize) < n { point.row } else { (n - 1) as u32 };
        let len = self.line_lens[row as usize];
        Point { row, column: if point.column < len { point.column } else { len } }
    }
}

/// A point clipped into a buffer with row lengths `lens`.
pub open spec fn clip_point_spec(lens: Seq<u32>, p: Point) -> Point {
    let row: u32 = if p.row < lens.len() { p.row } else { (lens.len() - 1) as u32 };
    Point { row, column: if p.column < lens[row as int] { p.column } else { lens[row as int] } }
}

/// Whether `p` lies inside a buffer with row lengths `lens`.
pub open spec fn valid_point(lens: Seq<u32>, p: Point) -> bool {
    p.row < lens.len() && p.column <= lens[p.row as int]
}

} // verus!
