//! Folding: ranges of the buffer shown as a short placeholder, and the
//! mapping of points between the buffer and the folded text.
use vstd::prelude::*;
use vstd::relations::{sorted_by, total_ordering};
use std::ops::Range;
use crate::buffer::{BufferSnapshot, valid_point};
use crate::point::{Point, point_add, point_le, point_lt, point_sub};

verus! {

/// A folded range of the buffer, from `start` to `end`.
#[derive(Debug, Clone, Copy, PartialEq, Eq, PartialOrd, Ord, Structural)]
pub struct Fold {
    pub start: Point,
    pub end: Point,
}

/// Folds in order of start, then of end.
pub open spec fn fold_le(a: Fold, b: Fold) -> bool {
    point_lt(a.start, b.start) || (a.start == b.start && point_le(a.end, b.end))
}

/// [`fold_le`] as a relation.
pub open spec fn fold_order() -> spec_fn(Fold, Fold) -> bool {
    |a: Fold, b: Fold| fold_le(a, b)
}

proof fn lemma_fold_order_total()
    ensures
        total_ordering(fold_order()),
{
    assert forall|x: Fold, y: Fold| #[trigger] fold_order()(x, y) && #[trigger] fold_order()(y, x) implies x == y by {
        assert(fold_le(x, y) && fold_le(y, x));
    }
}

fn fold_le_exec(a: &Fold, b: &Fold) -> (r: bool)
    ensures
        r == fold_le(*a, *b),
{
    a.start.lt(&b.start) || (a.start == b.start && a.end.le(&b.end))
}

/// The folds in order; see [`fold_le`].
fn sort_folds(folds: Vec<Fold>) -> (r: Vec<Fold>)
    ensures
        r@ == folds@.sort_by(fold_order()),
{
    broadcast use vstd::seq_lib::group_to_multiset_ensures;

    let mut out: Vec<Fold> = Vec::new();
    let mut i: usize = 0;
    proof {
        lemma_fold_order_total();
        assert(folds@.subrange(0, 0) =~= Seq::<Fold>::empty());
    }
    while i < folds.len()
        invariant
            i <= folds@.len(),
            total_ordering(fold_order()),
            sorted_by(out@, fold_order()),
            out@.to_multiset() == folds@.subrange(0, i as int).to_multiset(),
        decreases folds@.len() - i,
    {
        let x = folds[i];
        let mut p: usize = 0;
        while p < out.len() && fold_le_exec(&out[p], &x)
            invariant
                p <= out@.len(),
                forall|q: int| 0 <= q < p ==> fold_le(#[trigger] out@[q], x),
            decreases out@.len() - p,
        {
            p = p + 1;
        }
        let ghost before = out@;
        out.insert(p, x);
        proof {
            assert(out@ == before.insert(p as int, x));
            assert(folds@.subrange(0, i + 1) =~= folds@.subrange(0, i as int).push(x));
            vstd::seq_lib::to_multiset_insert(before, p as int, x);
            vstd::seq_lib::to_multiset_build(folds@.subrange(0, i as int), x);
            assert forall|a: int, b: int| 0 <= a < b < out@.len() implies #[trigger] fold_order()(out@[a], out@[b]) by {
                if b < p {
                    assert(fold_order()(before[a], before[b]));
                } else if b == p {
                    assert(fold_le(before[a], x));
                } else if a < p {
                    assert(fold_le(before[a], x));
                    if p < before.len() {
                        assert(!fold_le(before[p as int], x));
                        assert(fold_order()(before[p as int], before[b - 1]) || p == b - 1);
                    }
                } else if a == p {
                    assert(!fold_le(before[p as int], x));
                    assert(fold_order()(before[p as int], before[b - 1]) || p == b - 1);
                } else {
                    assert(fold_order()(before[a - 1], before[b - 1]));
                }
            }
        }
        i = i + 1;
    }
    proof {
        assert(folds@.subrange(0, i as int) =~= folds@);
        folds@.lemma_sort_by_ensures(fold_order());
        vstd::seq_lib::lemma_sorted_unique(out@, folds@.sort_by(fold_order()), fold_order());
    }
    out
}

/// The folds kept from sorted folds `sorted[..i]`: one that starts inside
/// the last kept fold is dropped, and so is an empty one.
pub open spec fn clean_from(sorted: Seq<Fold>, i: int) -> Seq<Fold>
    decreases i,
{
    if i <= 0 {
        Seq::empty()
    } else {
        let kept = clean_from(sorted, i - 1);
        let f = sorted[i - 1];
        if kept.len() > 0 && point_le(kept.last().start, f.start) && point_lt(f.start, kept.last().end) {
            kept
        } else if point_lt(f.start, f.end) {
            kept.push(f)
        } else {
            kept
        }
    }
}

/// The folds a fold map keeps: in order, without nested, overlapping or
/// empty ones.
pub open spec fn clean_folds(folds: Seq<Fold>) -> Seq<Fold> {
    let sorted = folds.sort_by(fold_order());
    clean_from(sorted, sorted.len() as int)
}

fn clean(sorted: &Vec<Fold>) -> (r: Vec<Fold>)
    ensures
        r@ == clean_from(sorted@, sorted@.len() as int),
{
    let mut kept: Vec<Fold> = Vec::new();
    let mut i: usize = 0;
    while i < sorted.len()
        invariant
            i <= sorted@.len(),
            kept@ == clean_from(sorted@, i as int),
        decreases sorted@.len() - i,
    {
        let f = sorted[i];
        let n = kept.len();
        let nested = n > 0 && kept[n - 1].start.le(&f.start) && f.start.lt(&kept[n - 1].end);
        if !nested && f.start.lt(&f.end) {
            kept.push(f);
        }
        i = i + 1;
    }
    kept
}


/// The kept folds are in order, non-empty, and do not overlap.
pub open spec fn folds_ordered(kept: Seq<Fold>) -> bool {
    &&& forall|k: int| 0 <= k < kept.len() ==> point_lt((#[trigger] kept[k]).start, kept[k].end)
    &&& forall|k: int| 0 < k < kept.len() ==> point_le(kept[k - 1].end, (#[trigger] kept[k]).start)
}

proof fn lemma_clean_ordered(sorted: Seq<Fold>, i: int)
    requires
        0 <= i <= sorted.len(),
        sorted_by(sorted, fold_order()),
    ensures
        folds_ordered(clean_from(sorted, i)),
        forall|k: int| 0 <= k < clean_from(sorted, i).len() ==> sorted.contains(#[trigger] clean_from(sorted, i)[k]),
        clean_from(sorted, i).len() > 0 ==> exists|j: int| 0 <= j < i && sorted[j] == clean_from(sorted, i).last(),
    decreases i,
{
    if i > 0 {
        lemma_clean_ordered(sorted, i - 1);
        let kept = clean_from(sorted, i - 1);
        let f = sorted[i - 1];
        if kept.len() > 0 {
            let j = choose|j: int| 0 <= j < i - 1 && sorted[j] == kept.last();
            assert(fold_order()(sorted[j], sorted[i - 1]));
        }
        let now = clean_from(sorted, i);
        assert forall|k: int| 0 <= k < now.len() implies sorted.contains(#[trigger] now[k]) by {
            if k < kept.len() {
                assert(now[k] == kept[k]);
            } else {
                assert(now[k] == sorted[i - 1]);
            }
        }
    }
}

// ---------------------------------------------------------------------------
// Building the mappings
// ---------------------------------------------------------------------------

/// A stretch of the buffer and where it lies in the folded text: a fold
/// maps its whole range onto its placeholder, other text maps one for one.
pub struct PointMapping {
    pub original_range: Range<Point>,
    pub folded_range: Range<Point>,
    pub is_fold: bool,
}

impl Clone for PointMapping {
    fn clone(&self) -> (c: PointMapping)
        ensures
            c == *self,
    {
        PointMapping {
            original_range: Range { start: self.original_range.start, end: self.original_range.end },
            folded_range: Range { start: self.folded_range.start, end: self.folded_range.end },
            is_fold: self.is_fold,
        }
    }
}

/// What building a fold map keeps track of: the buffer position reached,
/// the folded position reached, the mappings so far, the lengths of the
/// folded rows written, the length of the folded row being written, and
/// whether every position and length so far fits in a `u32`.
pub struct FoldBuild {
    pub orig: Point,
    pub fold: Point,
    pub maps: Seq<PointMapping>,
    pub lines: Seq<int>,
    pub cur: int,
    pub ok: bool,
}

/// Whether `x` fits in a `u32`.
pub open spec fn fits(x: int) -> bool {
    0 <= x <= u32::MAX
}

/// Whether `a + b` (see [`point_add`]) fits in a `u32` point.
pub open spec fn add_fits(a: Point, b: Point) -> bool {
    if b.row == 0 {
        a.column + b.column <= u32::MAX
    } else {
        a.row + b.row <= u32::MAX
    }
}

/// The build before any fold.
pub open spec fn build_start() -> FoldBuild {
    FoldBuild {
        orig: Point { row: 0, column: 0 },
        fold: Point { row: 0, column: 0 },
        maps: Seq::empty(),
        lines: Seq::empty(),
        cur: 0,
        ok: true,
    }
}

/// Copies the buffer text from the position reached to `to` into the
/// folded text.
pub open spec fn chunk_step(st: FoldBuild, lens: Seq<u32>, to: Point) -> FoldBuild {
    let a = st.orig;
    let ext = point_sub(to, a);
    let nf = point_add(st.fold, ext);
    let first = st.cur + lens[a.row as int] - a.column;
    FoldBuild {
        orig: to,
        fold: nf,
        maps: st.maps.push(
            PointMapping {
                original_range: Range { start: a, end: to },
                folded_range: Range { start: st.fold, end: nf },
                is_fold: false,
            },
        ),
        lines: if a.row == to.row {
            st.lines
        } else {
            st.lines.push(first) + lens.subrange(a.row + 1, to.row as int).map_values(|l: u32| l as int)
        },
        cur: if a.row == to.row {
            st.cur + to.column - a.column
        } else {
            to.column as int
        },
        ok: st.ok && add_fits(st.fold, ext) && (if a.row == to.row {
            fits(st.cur + to.column - a.column)
        } else {
            fits(first)
        }),
    }
}

/// The placeholder written for a fold.
pub open spec fn placeholder() -> Point {
    Point { row: 0, column: 4 }
}

/// Writes the placeholder of fold `f` and skips the buffer to its end.
pub open spec fn fold_step(st: FoldBuild, f: Fold) -> FoldBuild {
    let nf = point_add(st.fold, placeholder());
    FoldBuild {
        orig: f.end,
        fold: nf,
        maps: st.maps.push(
            PointMapping {
                original_range: Range { start: f.start, end: f.end },
                folded_range: Range { start: st.fold, end: nf },
                is_fold: true,
            },
        ),
        lines: st.lines,
        cur: st.cur + 4,
        ok: st.ok && add_fits(st.fold, placeholder()) && fits(st.cur + 4),
    }
}

/// The build after the first `i` kept folds.
pub open spec fn build_from(kept: Seq<Fold>, lens: Seq<u32>, i: int) -> FoldBuild
    decreases i,
{
    if i <= 0 {
        build_start()
    } else {
        let st = build_from(kept, lens, i - 1);
        let f = kept[i - 1];
        let st1 = if point_lt(st.orig, f.start) {
            chunk_step(st, lens, f.start)
        } else {
            st
        };
        fold_step(st1, f)
    }
}

/// The finished build: every kept fold, then the rest of the buffer.
pub open spec fn build_all(kept: Seq<Fold>, lens: Seq<u32>) -> FoldBuild {
    let st = build_from(kept, lens, kept.len() as int);
    let max = Point { row: (lens.len() - 1) as u32, column: lens[lens.len() - 1] };
    if point_lt(st.orig, max) {
        chunk_step(st, lens, max)
    } else {
        st
    }
}

/// The row lengths of the folded text of a finished build.
pub open spec fn folded_lens(st: FoldBuild) -> Seq<u32> {
    st.lines.push(st.cur).map_values(|x: int| x as u32)
}


proof fn lemma_ok_monotone(kept: Seq<Fold>, lens: Seq<u32>, i: int, j: int)
    requires
        0 <= i <= j <= kept.len(),
        build_from(kept, lens, j).ok,
    ensures
        build_from(kept, lens, i).ok,
    decreases j - i,
{
    if i < j {
        assert(build_from(kept, lens, j - 1).ok);
        lemma_ok_monotone(kept, lens, i, j - 1);
    }
}

/// The row lengths of a build, as `u32`s.
pub open spec fn lines_u32(lines: Seq<u32>) -> Seq<int> {
    lines.map_values(|x: u32| x as int)
}

/// The exec state of a build matches the spec build `st`.
pub open spec fn matches_build(
    orig: Point,
    fold: Point,
    maps: Seq<PointMapping>,
    lines: Seq<u32>,
    cur: u32,
    st: FoldBuild,
) -> bool {
    &&& orig == st.orig
    &&& fold == st.fold
    &&& maps == st.maps
    &&& lines_u32(lines) == st.lines
    &&& cur == st.cur
}

/// Copies the buffer text from `orig` to `to` into the build.
fn exec_chunk(
    lens: &Vec<u32>,
    orig: &mut Point,
    fold: &mut Point,
    maps: &mut Vec<PointMapping>,
    lines: &mut Vec<u32>,
    cur: &mut u32,
    to: Point,
    Ghost(st): Ghost<FoldBuild>,
)
    requires
        matches_build(*old(orig), *old(fold), old(maps)@, old(lines)@, *old(cur), st),
        chunk_step(st, lens@, to).ok,
        point_lt(st.orig, to),
        valid_point(lens@, st.orig),
        valid_point(lens@, to),
    ensures
        matches_build(*final(orig), *final(fold), final(maps)@, final(lines)@, *final(cur), chunk_step(st, lens@, to)),
{
    let a = *orig;
    let ext = to.sub(&a);
    let nf = fold.add(&ext);
    maps.push(
        PointMapping {
            original_range: Range { start: a, end: to },
            folded_range: Range { start: *fold, end: nf },
            is_fold: false,
        },
    );
    if a.row == to.row {
        *cur = *cur + (to.column - a.column);
    } else {
        let first = *cur + (lens[a.row as usize] - a.column);
        let ghost before = lines@;
        lines.push(first);
        let mut r: u32 = a.row + 1;
        let ghost base = lines@;
        proof {
            assert(lens@.subrange(a.row + 1, r as int) =~= Seq::<u32>::empty());
            assert(lines_u32(lines@) =~= lines_u32(before).push(first as int));
        }
        while r < to.row
            invariant
                a.row < r <= to.row,
                to.row < lens@.len(),
                lines@ == base + lens@.subrange(a.row + 1, r as int),
            decreases to.row - r,
        {
            lines.push(lens[r as usize]);
            r = r + 1;
            proof {
                assert(lines@ =~= base + lens@.subrange(a.row + 1, r as int));
            }
        }
        proof {
            assert(lines_u32(lines@) =~= lines_u32(base) + lens@.subrange(a.row + 1, to.row as int).map_values(
                |l: u32| l as int,
            ));
        }
        *cur = to.column;
    }
    *orig = to;
    *fold = nf;
}

/// Writes the placeholder of `f` into the build.
fn exec_fold(
    orig: &mut Point,
    fold: &mut Point,
    maps: &mut Vec<PointMapping>,
    cur: &mut u32,
    f: Fold,
    Ghost(st): Ghost<FoldBuild>,
    Ghost(lines): Ghost<Seq<u32>>,
)
    requires
        matches_build(*old(orig), *old(fold), old(maps)@, lines, *old(cur), st),
        fold_step(st, f).ok,
    ensures
        matches_build(*final(orig), *final(fold), final(maps)@, lines, *final(cur), fold_step(st, f)),
{
    let nf = fold.add(&Point { row: 0, column: 4 });
    maps.push(
        PointMapping {
            original_range: Range { start: f.start, end: f.end },
            folded_range: Range { start: *fold, end: nf },
            is_fold: true,
        },
    );
    *cur = *cur + 4;
    *orig = f.end;
    *fold = nf;
}


proof fn lemma_build_orig(kept: Seq<Fold>, lens: Seq<u32>, i: int)
    requires
        0 <= i <= kept.len(),
    ensures
        build_from(kept, lens, i).orig == (if i == 0 {
            Point { row: 0, column: 0 }
        } else {
            kept[i - 1].end
        }),
{
}

proof fn lemma_chunk_rows(st: FoldBuild, lens: Seq<u32>, to: Point)
    requires
        chunk_step(st, lens, to).ok,
        point_lt(st.orig, to),
        st.lines.len() == st.fold.row,
        st.fold.row <= st.orig.row,
        valid_point(lens, to),
    ensures
        chunk_step(st, lens, to).lines.len() == chunk_step(st, lens, to).fold.row,
        chunk_step(st, lens, to).fold.row <= to.row,
{
}

proof fn lemma_build_rows(kept: Seq<Fold>, lens: Seq<u32>, i: int)
    requires
        0 <= i <= kept.len(),
        folds_ordered(kept),
        folds_inside(lens, kept),
        build_from(kept, lens, i).ok,
    ensures
        build_from(kept, lens, i).lines.len() == build_from(kept, lens, i).fold.row,
        build_from(kept, lens, i).fold.row <= build_from(kept, lens, i).orig.row,
    decreases i,
{
    if i > 0 {
        lemma_ok_monotone(kept, lens, i - 1, i);
        lemma_build_rows(kept, lens, i - 1);
        lemma_build_orig(kept, lens, i - 1);
        let st = build_from(kept, lens, i - 1);
        let f = kept[i - 1];
        if i > 1 {
            assert(point_le(kept[i - 2].end, kept[i - 1].start));
        }
        if point_lt(st.orig, f.start) {
            lemma_chunk_rows(st, lens, f.start);
        }
    }
}

/// The mappings of a build tile the buffer and the folded text in order:
/// each mapping's ranges are non-empty and start where the previous ones
/// end, text maps one for one, a fold maps onto a placeholder, and every
/// fold mapping is one of the folds `kept`.
#[verifier::opaque]
pub open spec fn mappings_tile(maps: Seq<PointMapping>, lens: Seq<u32>, kept: Seq<Fold>) -> bool {
    &&& maps.len() > 0 ==> maps[0].original_range.start == Point { row: 0, column: 0 } && maps[0].folded_range.start
        == Point { row: 0, column: 0 }
    &&& forall|k: int|
        0 <= k < maps.len() - 1 ==> (#[trigger] maps[k]).original_range.end == maps[k + 1].original_range.start
            && maps[k].folded_range.end == maps[k + 1].folded_range.start
    &&& forall|k: int|
        0 <= k < maps.len() ==> point_lt((#[trigger] maps[k]).original_range.start, maps[k].original_range.end)
            && point_lt(maps[k].folded_range.start, maps[k].folded_range.end) && valid_point(
            lens,
            maps[k].original_range.start,
        ) && valid_point(lens, maps[k].original_range.end)
    &&& forall|k: int|
        0 <= k < maps.len() && !(#[trigger] maps[k]).is_fold ==> {
            let os = maps[k].original_range.start;
            let oe = maps[k].original_range.end;
            let fs = maps[k].folded_range.start;
            &&& maps[k].folded_range.end == point_add(fs, point_sub(oe, os))
            &&& add_fits(fs, point_sub(oe, os))
            &&& (os.row < oe.row ==> fs.column + lens[os.row as int] - os.column <= u32::MAX)
        }
    &&& forall|k: int|
        0 <= k < maps.len() && (#[trigger] maps[k]).is_fold ==> exists|j: int|
            0 <= j < kept.len() && #[trigger] kept[j].start == maps[k].original_range.start && kept[j].end
                == maps[k].original_range.end
}

/// The state of a build agrees with its mappings.
pub open spec fn build_agrees(st: FoldBuild) -> bool {
    &&& st.maps.len() == 0 ==> st.orig == Point { row: 0, column: 0 } && st.fold == Point { row: 0, column: 0 }
    &&& st.maps.len() > 0 ==> st.maps.last().original_range.end == st.orig && st.maps.last().folded_range.end
        == st.fold
    &&& st.fold.column == st.cur
}

proof fn lemma_chunk_tiles(st: FoldBuild, lens: Seq<u32>, to: Point, kept: Seq<Fold>)
    requires
        chunk_step(st, lens, to).ok,
        point_lt(st.orig, to),
        valid_point(lens, st.orig),
        valid_point(lens, to),
        mappings_tile(st.maps, lens, kept),
        build_agrees(st),
    ensures
        mappings_tile(chunk_step(st, lens, to).maps, lens, kept),
        build_agrees(chunk_step(st, lens, to)),
{
    reveal(mappings_tile);
    let n = chunk_step(st, lens, to);
    let m = n.maps;
    assert forall|k: int| 0 <= k < m.len() && (#[trigger] m[k]).is_fold implies exists|j: int|
        0 <= j < kept.len() && #[trigger] kept[j].start == m[k].original_range.start && kept[j].end
            == m[k].original_range.end by {
        assert(m[k] == st.maps[k]);
    }
}

proof fn lemma_fold_tiles(st: FoldBuild, lens: Seq<u32>, f: Fold, kept: Seq<Fold>, j: int)
    requires
        fold_step(st, f).ok,
        0 <= j < kept.len(),
        kept[j] == f,
        point_lt(f.start, f.end),
        st.orig == f.start,
        valid_point(lens, f.start),
        valid_point(lens, f.end),
        mappings_tile(st.maps, lens, kept),
        build_agrees(st),
    ensures
        mappings_tile(fold_step(st, f).maps, lens, kept),
        build_agrees(fold_step(st, f)),
{
    reveal(mappings_tile);
    let n = fold_step(st, f);
    let m = n.maps;
    assert forall|k: int| 0 <= k < m.len() && (#[trigger] m[k]).is_fold implies exists|i: int|
        0 <= i < kept.len() && #[trigger] kept[i].start == m[k].original_range.start && kept[i].end
            == m[k].original_range.end by {
        if k < st.maps.len() {
            assert(m[k] == st.maps[k]);
        } else {
            assert(kept[j].start == m[k].original_range.start);
        }
    }
}

proof fn lemma_build_tiles(kept: Seq<Fold>, lens: Seq<u32>, i: int)
    requires
        0 <= i <= kept.len(),
        lens.len() >= 1,
        folds_ordered(kept),
        folds_inside(lens, kept),
        build_from(kept, lens, i).ok,
    ensures
        mappings_tile(build_from(kept, lens, i).maps, lens, kept),
        build_agrees(build_from(kept, lens, i)),
    decreases i,
{
    if i > 0 {
        lemma_ok_monotone(kept, lens, i - 1, i);
        lemma_build_tiles(kept, lens, i - 1);
        lemma_build_orig(kept, lens, i - 1);
        let st = build_from(kept, lens, i - 1);
        let f = kept[i - 1];
        if i > 1 {
            assert(point_le(kept[i - 2].end, kept[i - 1].start));
        }
        assert(valid_point(lens, st.orig));
        if point_lt(st.orig, f.start) {
            lemma_chunk_tiles(st, lens, f.start, kept);
            lemma_fold_tiles(chunk_step(st, lens, f.start), lens, f, kept, i - 1);
        } else {
            lemma_fold_tiles(st, lens, f, kept, i - 1);
        }
    } else {
        reveal(mappings_tile);
    }
}

/// The finished build tiles the whole buffer.
proof fn lemma_build_all_tiles(kept: Seq<Fold>, lens: Seq<u32>)
    requires
        1 <= lens.len() <= u32::MAX,
        folds_ordered(kept),
        folds_inside(lens, kept),
        build_all(kept, lens).ok,
    ensures
        mappings_tile(build_all(kept, lens).maps, lens, kept),
        build_agrees(build_all(kept, lens)),
        build_all(kept, lens).orig == (Point { row: (lens.len() - 1) as u32, column: lens[lens.len() - 1] }),
{
    let st = build_from(kept, lens, kept.len() as int);
    let max = Point { row: (lens.len() - 1) as u32, column: lens[lens.len() - 1] };
    if point_lt(st.orig, max) {
        assert(chunk_step(st, lens, max).ok ==> st.ok);
    }
    lemma_build_tiles(kept, lens, kept.len() as int);
    lemma_build_orig(kept, lens, kept.len() as int);
    assert(valid_point(lens, st.orig));
    if point_lt(st.orig, max) {
        lemma_chunk_tiles(st, lens, max, kept);
    }
}

// ---------------------------------------------------------------------------
// Mapping points
// ---------------------------------------------------------------------------

/// The index of the first mapping from `i` on whose buffer range holds `p`,
/// or `maps.len()`.
pub open spec fn first_orig(maps: Seq<PointMapping>, p: Point, i: int) -> int
    decreases maps.len() - i,
{
    if i < 0 || i >= maps.len() {
        maps.len() as int
    } else if point_le(maps[i].original_range.start, p) && point_le(p, maps[i].original_range.end) {
        i
    } else {
        first_orig(maps, p, i + 1)
    }
}

/// The index of the first mapping from `i` on whose folded range holds `q`,
/// or `maps.len()`.
pub open spec fn first_folded(maps: Seq<PointMapping>, q: Point, i: int) -> int
    decreases maps.len() - i,
{
    if i < 0 || i >= maps.len() {
        maps.len() as int
    } else if point_le(maps[i].folded_range.start, q) && point_le(q, maps[i].folded_range.end) {
        i
    } else {
        first_folded(maps, q, i + 1)
    }
}

/// Where a buffer point lies in the folded text: by the first mapping that
/// holds it, the placeholder's start for a fold and the same offset for
/// other text; the origin where no mapping holds it.
pub open spec fn to_folded_spec(maps: Seq<PointMapping>, p: Point) -> Point {
    let k = first_orig(maps, p, 0);
    if k >= maps.len() {
        Point { row: 0, column: 0 }
    } else if maps[k].is_fold {
        maps[k].folded_range.start
    } else {
        point_add(maps[k].folded_range.start, point_sub(p, maps[k].original_range.start))
    }
}

/// Whether mapping `p` into the folded text stays within `u32`s.
pub open spec fn to_folded_fits(maps: Seq<PointMapping>, p: Point) -> bool {
    let k = first_orig(maps, p, 0);
    k < maps.len() && !maps[k].is_fold ==> add_fits(
        maps[k].folded_range.start,
        point_sub(p, maps[k].original_range.start),
    )
}

/// Where a folded point lies in the buffer: by the first mapping that holds
/// it, the fold's start for a placeholder and the same offset for other
/// text; the origin where no mapping holds it.
pub open spec fn from_folded_spec(maps: Seq<PointMapping>, q: Point) -> Point {
    let k = first_folded(maps, q, 0);
    if k >= maps.len() {
        Point { row: 0, column: 0 }
    } else if maps[k].is_fold {
        maps[k].original_range.start
    } else {
        point_add(maps[k].original_range.start, point_sub(q, maps[k].folded_range.start))
    }
}

/// Whether mapping `q` back into the buffer stays within `u32`s.
pub open spec fn from_folded_fits(maps: Seq<PointMapping>, q: Point) -> bool {
    let k = first_folded(maps, q, 0);
    k < maps.len() && !maps[k].is_fold ==> add_fits(
        maps[k].original_range.start,
        point_sub(q, maps[k].folded_range.start),
    )
}

/// Whether every fold of `folds` lies inside the buffer with row lengths
/// `lens`.
pub open spec fn folds_inside(lens: Seq<u32>, folds: Seq<Fold>) -> bool {
    forall|k: int|
        0 <= k < folds.len() ==> valid_point(lens, (#[trigger] folds[k]).start) && valid_point(lens, folds[k].end)
}

/// Whether mapping `m` holds the buffer point `p`.
pub open spec fn holds_orig(m: PointMapping, p: Point) -> bool {
    point_le(m.original_range.start, p) && point_le(p, m.original_range.end)
}

/// Whether mapping `m` holds the folded point `q`.
pub open spec fn holds_folded(m: PointMapping, q: Point) -> bool {
    point_le(m.folded_range.start, q) && point_le(q, m.folded_range.end)
}

proof fn lemma_first_orig(maps: Seq<PointMapping>, p: Point, i: int)
    requires
        0 <= i <= maps.len(),
    ensures
        i <= first_orig(maps, p, i) <= maps.len(),
        first_orig(maps, p, i) < maps.len() ==> holds_orig(maps[first_orig(maps, p, i)], p),
        forall|j: int| i <= j < first_orig(maps, p, i) ==> !holds_orig(#[trigger] maps[j], p),
    decreases maps.len() - i,
{
    if i < maps.len() && !holds_orig(maps[i], p) {
        lemma_first_orig(maps, p, i + 1);
    }
}

proof fn lemma_first_folded_is(maps: Seq<PointMapping>, q: Point, i: int, k: int)
    requires
        0 <= i <= k < maps.len(),
        holds_folded(maps[k], q),
        forall|j: int| i <= j < k ==> !holds_folded(#[trigger] maps[j], q),
    ensures
        first_folded(maps, q, i) == k,
    decreases k - i,
{
    if i < k {
        assert(!holds_folded(maps[i], q));
        lemma_first_folded_is(maps, q, i + 1, k);
    }
}

proof fn lemma_covered(maps: Seq<PointMapping>, lens: Seq<u32>, kept: Seq<Fold>, p: Point, i: int)
    requires
        mappings_tile(maps, lens, kept),
        0 <= i < maps.len(),
        point_le(maps[i].original_range.start, p),
        point_le(p, maps.last().original_range.end),
    ensures
        first_orig(maps, p, i) < maps.len(),
    decreases maps.len() - i,
{
    reveal(mappings_tile);
    if !holds_orig(maps[i], p) {
        assert(maps[i].original_range.end == maps[i + 1].original_range.start);
        lemma_covered(maps, lens, kept, p, i + 1);
    }
}

proof fn lemma_folded_order(maps: Seq<PointMapping>, lens: Seq<u32>, kept: Seq<Fold>, j: int, k: int)
    requires
        mappings_tile(maps, lens, kept),
        0 <= j < k < maps.len(),
    ensures
        point_le(maps[j].folded_range.end, maps[k].folded_range.start),
        j < k - 1 ==> point_lt(maps[j].folded_range.end, maps[k].folded_range.start),
    decreases k - j,
{
    reveal(mappings_tile);
    if j < k - 1 {
        lemma_folded_order(maps, lens, kept, j, k - 1);
        assert(maps[k - 1].folded_range.end == maps[k].folded_range.start);
    }
}

/// The folds kept from `folds` are ordered and lie in the buffer.
proof fn lemma_kept(folds: Seq<Fold>, lens: Seq<u32>)
    requires
        folds_inside(lens, folds),
    ensures
        folds_ordered(clean_folds(folds)),
        folds_inside(lens, clean_folds(folds)),
{
    lemma_fold_order_total();
    folds.lemma_sort_by_ensures(fold_order());
    let sorted = folds.sort_by(fold_order());
    lemma_clean_ordered(sorted, sorted.len() as int);
    let kv = clean_folds(folds);
    assert forall|k: int| 0 <= k < kv.len() implies valid_point(lens, (#[trigger] kv[k]).start) && valid_point(
        lens,
        kv[k].end,
    ) by {
        assert(sorted.contains(kv[k]));
        assert(folds.contains(kv[k]));
        let j = choose|j: int| 0 <= j < folds.len() && folds[j] == kv[k];
        assert(valid_point(lens, folds[j].start));
    }
}

proof fn lemma_round_trip_at(maps: Seq<PointMapping>, lens: Seq<u32>, kept: Seq<Fold>, p: Point, k: int)
    requires
        mappings_tile(maps, lens, kept),
        0 <= k < maps.len(),
        k == first_orig(maps, p, 0),
        holds_orig(maps[k], p),
        forall|j: int| 0 <= j < k ==> !holds_orig(#[trigger] maps[j], p),
        !maps[k].is_fold,
        valid_point(lens, p),
    ensures
        to_folded_fits(maps, p),
        from_folded_fits(maps, to_folded_spec(maps, p)),
        from_folded_spec(maps, to_folded_spec(maps, p)) == p,
{
    reveal(mappings_tile);
    let m = maps[k];
    let os = m.original_range.start;
    let fs = m.folded_range.start;
    let d = point_sub(p, os);
    let q = point_add(fs, d);
    assert(add_fits(fs, d));
    assert(q == to_folded_spec(maps, p));
    assert(holds_folded(m, q));
    assert forall|j: int| 0 <= j < k implies !holds_folded(#[trigger] maps[j], q) by {
        lemma_folded_order(maps, lens, kept, j, k);
        if holds_folded(maps[j], q) {
            assert(j == k - 1);
            assert(q == fs);
            assert(p == os);
            assert(maps[j].original_range.end == os);
            assert(holds_orig(maps[j], p));
        }
    }
    lemma_first_folded_is(maps, q, 0, k);
    assert(point_sub(q, fs) == d);
}

/// Folding keeps the text outside the folds: a buffer point outside every
/// kept fold maps into the folded text and back to itself.
pub proof fn law_fold_round_trip(buffer: BufferSnapshot, folds: Seq<Fold>, p: Point)
    requires
        buffer.wf(),
        folds_inside(buffer@, folds),
        build_all(clean_folds(folds), buffer@).ok,
        valid_point(buffer@, p),
        forall|k: int|
            0 <= k < clean_folds(folds).len() ==> point_lt(p, (#[trigger] clean_folds(folds)[k]).start)
                || point_lt(clean_folds(folds)[k].end, p),
    ensures
        ({
            let maps = build_all(clean_folds(folds), buffer@).maps;
            &&& to_folded_fits(maps, p)
            &&& from_folded_fits(maps, to_folded_spec(maps, p))
            &&& from_folded_spec(maps, to_folded_spec(maps, p)) == p
        }),
{
    let lens = buffer@;
    let kept = clean_folds(folds);
    let st = build_all(kept, lens);
    let maps = st.maps;
    lemma_kept(folds, lens);
    lemma_build_all_tiles(kept, lens);
    if maps.len() > 0 {
        assert(maps[0].original_range.start == Point { row: 0, column: 0 } && maps.last().original_range.end
            == st.orig) by {
            reveal(mappings_tile);
        }
        lemma_covered(maps, lens, kept, p, 0);
        lemma_first_orig(maps, p, 0);
        let k = first_orig(maps, p, 0);
        if maps[k].is_fold {
            assert(exists|j: int|
                0 <= j < kept.len() && #[trigger] kept[j].start == maps[k].original_range.start && kept[j].end
                    == maps[k].original_range.end) by {
                reveal(mappings_tile);
            }
            let j = choose|j: int|
                0 <= j < kept.len() && #[trigger] kept[j].start == maps[k].original_range.start && kept[j].end
                    == maps[k].original_range.end;
            assert(point_lt(p, kept[j].start) || point_lt(kept[j].end, p));
        }
        lemma_round_trip_at(maps, lens, kept, p, k);
    }
}

/// The buffer with its folded ranges replaced by placeholders, and the
/// mapping of points between the two.
pub struct FoldMap {
    folds: Vec<Fold>,
    folded_buffer: BufferSnapshot,
    mappings: Vec<PointMapping>,
}

impl FoldMap {
    /// The folds kept.
    pub closed spec fn folds_spec(&self) -> Seq<Fold> {
        self.folds@
    }

    /// The mappings, in buffer order.
    pub closed spec fn mappings_spec(&self) -> Seq<PointMapping> {
        self.mappings@
    }

    /// The row lengths of the folded text.
    pub closed spec fn folded_spec(&self) -> Seq<u32> {
        self.folded_buffer@
    }

    /// Folds `buffer` at `folds`: the folds are sorted, and nested,
    /// overlapping and empty ones dropped (see [`clean_folds`]); each kept
    /// fold becomes the placeholder `{..}`.
    pub fn new(buffer: &BufferSnapshot, folds: Vec<Fold>) -> (m: FoldMap)
        requires
            buffer.wf(),
            folds_inside(buffer@, folds@),
            build_all(clean_folds(folds@), buffer@).ok,
        ensures
            m.folds_spec() == clean_folds(folds@),
            m.mappings_spec() == build_all(clean_folds(folds@), buffer@).maps,
            m.folded_spec() == folded_lens(build_all(clean_folds(folds@), buffer@)),
    {
        let lens = buffer.line_lens();
        let ghost folds_view = folds@;
        let sorted = sort_folds(folds);
        let kept = clean(&sorted);
        let ghost kv = kept@;
        proof {
            lemma_fold_order_total();
            folds_view.lemma_sort_by_ensures(fold_order());
            lemma_clean_ordered(sorted@, sorted@.len() as int);
            assert(kv == clean_folds(folds_view));
            assert forall|k: int| 0 <= k < kv.len() implies valid_point(lens@, (#[trigger] kv[k]).start) && valid_point(
                lens@,
                kv[k].end,
            ) by {
                assert(sorted@.contains(kv[k]));
                assert(folds_view.contains(kv[k]));
                let j = choose|j: int| 0 <= j < folds_view.len() && folds_view[j] == kv[k];
                assert(valid_point(lens@, folds_view[j].start));
            }
            lemma_ok_monotone(kv, lens@, kv.len() as int, kv.len() as int);
        }
        let mut orig = Point { row: 0, column: 0 };
        let mut fold = Point { row: 0, column: 0 };
        let mut maps: Vec<PointMapping> = Vec::new();
        let mut lines: Vec<u32> = Vec::new();
        let mut cur: u32 = 0;
        let mut i: usize = 0;
        proof {
            assert(lines_u32(lines@) =~= Seq::<int>::empty());
            assert(build_from(kv, lens@, kv.len() as int).ok) by {
                let st = build_from(kv, lens@, kv.len() as int);
                let max = Point { row: (lens@.len() - 1) as u32, column: lens@[lens@.len() - 1] };
                if point_lt(st.orig, max) {
                    assert(chunk_step(st, lens@, max).ok);
                }
            }
        }
        while i < kept.len()
            invariant
                kv == kept@,
                lens@ == buffer@,
                buffer.wf(),
                i <= kv.len(),
                forall|k: int| 0 <= k < kv.len() ==> valid_point(lens@, (#[trigger] kv[k]).start) && valid_point(
                    lens@,
                    kv[k].end,
                ),
                build_from(kv, lens@, kv.len() as int).ok,
                matches_build(orig, fold, maps@, lines@, cur, build_from(kv, lens@, i as int)),
            decreases kv.len() - i,
        {
            let f = kept[i];
            let ghost st = build_from(kv, lens@, i as int);
            proof {
                lemma_build_orig(kv, lens@, i as int);
                lemma_ok_monotone(kv, lens@, i + 1, kv.len() as int);
                assert(valid_point(lens@, st.orig));
            }
            let ghost st1 = if point_lt(st.orig, f.start) {
                chunk_step(st, lens@, f.start)
            } else {
                st
            };
            if orig.lt(&f.start) {
                exec_chunk(lens, &mut orig, &mut fold, &mut maps, &mut lines, &mut cur, f.start, Ghost(st));
            }
            exec_fold(&mut orig, &mut fold, &mut maps, &mut cur, f, Ghost(st1), Ghost(lines@));
            i = i + 1;
        }
        let n = lens.len();
        let max = Point { row: (n - 1) as u32, column: lens[n - 1] };
        let ghost st = build_from(kv, lens@, kv.len() as int);
        proof {
            lemma_build_orig(kv, lens@, kv.len() as int);
        }
        if orig.lt(&max) {
            exec_chunk(lens, &mut orig, &mut fold, &mut maps, &mut lines, &mut cur, max, Ghost(st));
        }
        let ghost fin = build_all(kv, lens@);
        proof {
            assert(fin.lines.len() == lines@.len());
            lemma_build_rows(kv, lens@, kv.len() as int);
            if point_lt(st.orig, max) {
                lemma_chunk_rows(st, lens@, max);
            }
        }
        lines.push(cur);
        proof {
            assert(lines@ =~= folded_lens(fin));
        }
        FoldMap { folds: kept, folded_buffer: BufferSnapshot::from_line_lens(lines), mappings: maps }
    }

    /// The row lengths of the folded text.
    pub fn folded_buffer(&self) -> (b: &BufferSnapshot)
        ensures
            b@ == self.folded_spec(),
    {
        &self.folded_buffer
    }

    /// Where a buffer point lies in the folded text; see [`to_folded_spec`].
    pub fn to_folded_point(&self, point: Point) -> (r: Point)
        requires
            to_folded_fits(self.mappings_spec(), point),
        ensures
            r == to_folded_spec(self.mappings_spec(), point),
    {
        let ghost maps = self.mappings@;
        let mut i: usize = 0;
        while i < self.mappings.len()
            invariant
                maps == self.mappings@,
                i <= maps.len(),
                first_orig(maps, point, 0) == first_orig(maps, point, i as int),
                to_folded_fits(maps, point),
            decreases maps.len() - i,
        {
            let m = &self.mappings[i];
            if m.original_range.start.le(&point) && point.le(&m.original_range.end) {
                if m.is_fold {
                    return m.folded_range.start;
                } else {
                    let offset = point.sub(&m.original_range.start);
                    return m.folded_range.start.add(&offset);
                }
            }
            i = i + 1;
        }
        Point { row: 0, column: 0 }
    }

    /// Where a folded point lies in the buffer; see [`from_folded_spec`].
    pub fn from_folded_point(&self, point: Point) -> (r: Point)
        requires
            from_folded_fits(self.mappings_spec(), point),
        ensures
            r == from_folded_spec(self.mappings_spec(), point),
    {
        let ghost maps = self.mappings@;
        let mut i: usize = 0;
        while i < self.mappings.len()
            invariant
                maps == self.mappings@,
                i <= maps.len(),
                first_folded(maps, point, 0) == first_folded(maps, point, i as int),
                from_folded_fits(maps, point),
            decreases maps.len() - i,
        {
            let m = &self.mappings[i];
            if m.folded_range.start.le(&point) && point.le(&m.folded_range.end) {
                if m.is_fold {
                    return m.original_range.start;
                } else {
                    let offset = point.sub(&m.folded_range.start);
                    return m.original_range.start.add(&offset);
                }
            }
            i = i + 1;
        }
        Point { row: 0, column: 0 }
    }
}

} // verus!
