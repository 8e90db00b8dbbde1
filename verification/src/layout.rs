//! Window layout: split directions, the directions to move focus in, screen
//! rectangles, and the tree of splits whose leaves are windows.
use vstd::prelude::*;

verus! {

/// How a split lays out its children: side by side, or one above another.
#[derive(Debug, Clone, Copy, PartialEq, Eq, Structural)]
pub enum SplitDirection {
    Horizontal,
    Vertical,
}

/// A direction to move the focus to a neighbouring window in.
#[derive(Debug, Clone, Copy, PartialEq, Eq, Structural)]
pub enum NavigationDirection {
    Left,
    Right,
    Up,
    Down,
}

/// A rectangle of terminal cells.
#[derive(Debug, Clone, Copy, PartialEq, Eq, Structural)]
pub struct Rect {
    pub x: u16,
    pub y: u16,
    pub width: u16,
    pub height: u16,
}

/// How much of a split one child takes: a fixed number of cells, or a
/// share of what the fixed children leave, by a weight. The weight is a
/// 32-bit IEEE float kept as its bits; the tree only carries it.
#[derive(Debug, Clone, Copy, PartialEq, Eq, Structural)]
pub enum SizeConstraint {
    Fixed(u16),
    Percentage(u32),
}

/// The bits of the 32-bit float one half, the weight of each side of a new split.
pub const HALF_WEIGHT: u32 = 0x3F00_0000;

/// A layout tree: a window, or a split of several children side by side or
/// one above another.
#[derive(Debug)]
pub enum LayoutNode {
    Leaf { window_id: usize },
    Split { direction: SplitDirection, constraints: Vec<SizeConstraint>, children: Vec<LayoutNode> },
}

/// The windows of a layout tree, from left to right (top to bottom).
pub open spec fn leaves(n: LayoutNode) -> Seq<usize>
    decreases n,
{
    match n {
        LayoutNode::Leaf { window_id } => seq![window_id],
        LayoutNode::Split { children, .. } => leaves_of(children@),
    }
}

/// The windows of a sequence of layout trees, in order.
pub open spec fn leaves_of(s: Seq<LayoutNode>) -> Seq<usize>
    decreases s,
{
    if s.len() == 0 {
        Seq::empty()
    } else {
        leaves_of(s.drop_last()) + leaves(s.last())
    }
}

/// `after` is `before` with `new` placed right behind the first `t`.
pub open spec fn split_at_first(before: Seq<usize>, after: Seq<usize>, t: usize, new: usize) -> bool {
    exists|k: int|
        0 <= k < before.len() && before[k] == t && !before.take(k).contains(t) && after
            == before.insert(k + 1, new)
}

/// `after` is `before` without one occurrence of `t`.
pub open spec fn removed_one(before: Seq<usize>, after: Seq<usize>, t: usize) -> bool {
    exists|k: int| 0 <= k < before.len() && before[k] == t && after == before.remove(k)
}

/// `after` is `before` without one occurrence of `t`, and `w` stood right
/// before or right after that occurrence.
pub open spec fn removed_beside(before: Seq<usize>, after: Seq<usize>, t: usize, w: usize) -> bool {
    exists|k: int|
        0 <= k < before.len() && before[k] == t && after == before.remove(k) && ((0 < k
            && before[k - 1] == w) || (k + 1 < before.len() && before[k + 1] == w))
}

proof fn lemma_leaves_of_concat(a: Seq<LayoutNode>, b: Seq<LayoutNode>)
    ensures
        leaves_of(a + b) == leaves_of(a) + leaves_of(b),
    decreases b.len(),
{
    if b.len() == 0 {
        assert(a + b =~= a);
        assert(leaves_of(b) =~= Seq::<usize>::empty());
        assert(leaves_of(a) + leaves_of(b) =~= leaves_of(a));
    } else {
        lemma_leaves_of_concat(a, b.drop_last());
        assert((a + b).drop_last() =~= a + b.drop_last());
        assert((a + b).last() == b.last());
        assert(leaves_of(a + b) =~= leaves_of(a) + leaves_of(b));
    }
}

proof fn lemma_leaves_of_single(x: LayoutNode)
    ensures
        leaves_of(seq![x]) == leaves(x),
{
    assert(seq![x].drop_last() =~= Seq::<LayoutNode>::empty());
    assert(leaves_of(Seq::<LayoutNode>::empty()) =~= Seq::<usize>::empty());
    assert(Seq::<usize>::empty() + leaves(x) =~= leaves(x));
}

/// The windows of `s` split around its child `i`.
proof fn lemma_leaves_of_around(s: Seq<LayoutNode>, i: int)
    requires
        0 <= i < s.len(),
    ensures
        leaves_of(s) == leaves_of(s.take(i)) + leaves(s[i]) + leaves_of(s.skip(i + 1)),
{
    assert(s =~= s.take(i) + seq![s[i]] + s.skip(i + 1));
    lemma_leaves_of_concat(s.take(i) + seq![s[i]], s.skip(i + 1));
    lemma_leaves_of_concat(s.take(i), seq![s[i]]);
    lemma_leaves_of_single(s[i]);
}

/// A window is among those of `s` exactly when it is among those of one child.
proof fn lemma_leaves_of_contains(s: Seq<LayoutNode>, x: usize)
    ensures
        leaves_of(s).contains(x) <==> exists|j: int| 0 <= j < s.len() && leaves(#[trigger] s[j]).contains(x),
    decreases s.len(),
{
    if s.len() > 0 {
        lemma_leaves_of_contains(s.drop_last(), x);
        let a = leaves_of(s.drop_last());
        let b = leaves(s.last());
        if (a + b).contains(x) {
            let p = choose|p: int| 0 <= p < (a + b).len() && (a + b)[p] == x;
            if p < a.len() {
                assert(a[p] == x);
                let j = choose|j: int| 0 <= j < s.drop_last().len() && leaves(#[trigger] s.drop_last()[j]).contains(x);
                assert(s[j] == s.drop_last()[j]);
            } else {
                assert(b[p - a.len()] == x);
                assert(leaves(s[s.len() - 1]).contains(x));
            }
        }
        if exists|j: int| 0 <= j < s.len() && leaves(#[trigger] s[j]).contains(x) {
            let j = choose|j: int| 0 <= j < s.len() && leaves(#[trigger] s[j]).contains(x);
            let q = choose|q: int| 0 <= q < leaves(s[j]).len() && leaves(s[j])[q] == x;
            if j < s.len() - 1 {
                assert(s.drop_last()[j] == s[j]);
                assert(a.contains(x));
                let p = choose|p: int| 0 <= p < a.len() && a[p] == x;
                assert((a + b)[p] == x);
            } else {
                assert((a + b)[a.len() + q] == x);
            }
        }
    }
}

/// Taking out a child that is the window `t` takes `t` out of the windows.
proof fn lemma_remove_direct(s: Seq<LayoutNode>, i: int, t: usize)
    requires
        0 <= i < s.len(),
        s[i] == (LayoutNode::Leaf { window_id: t }),
    ensures
        ({
            let k = leaves_of(s.take(i)).len() as int;
            0 <= k < leaves_of(s).len() && leaves_of(s)[k] == t && leaves_of(s.remove(i))
                == leaves_of(s).remove(k)
        }),
{
    lemma_leaves_of_around(s, i);
    assert(leaves(s[i]) =~= seq![t]);
    assert(s.remove(i) =~= s.take(i) + s.skip(i + 1));
    lemma_leaves_of_concat(s.take(i), s.skip(i + 1));
    let k = leaves_of(s.take(i)).len() as int;
    assert(leaves_of(s)[k] == t);
    assert(leaves_of(s.remove(i)) =~= leaves_of(s).remove(k));
}

/// Replacing child `i` by a tree whose windows are those of child `i`
/// without one `t` takes that `t` out of the windows, next to the same
/// neighbour.
proof fn lemma_remove_nested(s: Seq<LayoutNode>, i: int, c: LayoutNode, t: usize, sibling: Option<usize>)
    requires
        0 <= i < s.len(),
        match sibling {
            Some(w) => removed_beside(leaves(s[i]), leaves(c), t, w),
            None => removed_one(leaves(s[i]), leaves(c), t),
        },
    ensures
        match sibling {
            Some(w) => removed_beside(leaves_of(s), leaves_of(s.update(i, c)), t, w),
            None => removed_one(leaves_of(s), leaves_of(s.update(i, c)), t),
        },
{
    let s2 = s.update(i, c);
    lemma_leaves_of_around(s, i);
    lemma_leaves_of_around(s2, i);
    assert(s2.take(i) =~= s.take(i));
    assert(s2.skip(i + 1) =~= s.skip(i + 1));
    let p = leaves_of(s.take(i));
    let lc = leaves(s[i]);
    let r = leaves_of(s.skip(i + 1));
    let l = leaves_of(s);
    match sibling {
        Some(w) => {
            let kw = choose|kw: int|
                0 <= kw < lc.len() && lc[kw] == t && leaves(c) == lc.remove(kw) && ((0 < kw && lc[kw
                    - 1] == w) || (kw + 1 < lc.len() && lc[kw + 1] == w));
            let k = p.len() + kw;
            assert(l[k] == t);
            assert(leaves_of(s2) =~= l.remove(k));
            if 0 < kw && lc[kw - 1] == w {
                assert(l[k - 1] == w);
            } else {
                assert(l[k + 1] == w);
            }
        },
        None => {
            let kc = choose|kc: int| 0 <= kc < lc.len() && lc[kc] == t && leaves(c) == lc.remove(kc);
            let k = p.len() + kc;
            assert(l[k] == t);
            assert(leaves_of(s2) =~= l.remove(k));
        },
    }
}

/// Whether `n` is a split in direction `dir` of exactly the windows `t` and
/// `new_id`, in that order, each taking half.
pub open spec fn is_pair_split(n: LayoutNode, dir: SplitDirection, t: usize, new_id: usize) -> bool {
    &&& n matches LayoutNode::Split { direction, constraints, children }
    &&& direction == dir
    &&& constraints@ == seq![SizeConstraint::Percentage(HALF_WEIGHT), SizeConstraint::Percentage(HALF_WEIGHT)]
    &&& children@ == seq![LayoutNode::Leaf { window_id: t }, LayoutNode::Leaf { window_id: new_id }]
}

/// Whether the tree `n` has, anywhere in it, such a split.
pub open spec fn holds_pair_split(n: LayoutNode, dir: SplitDirection, t: usize, new_id: usize) -> bool
    decreases n,
{
    is_pair_split(n, dir, t, new_id) || match n {
        LayoutNode::Leaf { .. } => false,
        LayoutNode::Split { children, .. } => pair_split_among(children@, dir, t, new_id),
    }
}

/// Whether one of the trees `s` has such a split.
pub open spec fn pair_split_among(s: Seq<LayoutNode>, dir: SplitDirection, t: usize, new_id: usize) -> bool
    decreases s,
{
    if s.len() == 0 {
        false
    } else {
        holds_pair_split(s.last(), dir, t, new_id) || pair_split_among(s.drop_last(), dir, t, new_id)
    }
}

proof fn lemma_pair_split_among(s: Seq<LayoutNode>, dir: SplitDirection, t: usize, new_id: usize, j: int)
    requires
        0 <= j < s.len(),
        holds_pair_split(s[j], dir, t, new_id),
    ensures
        pair_split_among(s, dir, t, new_id),
    decreases s.len(),
{
    if j < s.len() - 1 {
        lemma_pair_split_among(s.drop_last(), dir, t, new_id, j);
    }
}

/// The first index at or after `i` whose tree satisfies `p`.
pub open spec fn first_where(s: Seq<LayoutNode>, p: spec_fn(LayoutNode) -> bool, i: int) -> Option<int>
    decreases s.len() - i,
{
    if i < 0 || i >= s.len() {
        None
    } else if p(s[i]) {
        Some(i)
    } else {
        first_where(s, p, i + 1)
    }
}

/// Whether a tree is the window `t` itself.
pub open spec fn is_window(t: usize) -> spec_fn(LayoutNode) -> bool {
    |n: LayoutNode| n == (LayoutNode::Leaf { window_id: t })
}

/// Whether a tree holds the window `t`.
pub open spec fn holds_window(t: usize) -> spec_fn(LayoutNode) -> bool {
    |n: LayoutNode| leaves(n).contains(t)
}

/// The window id of a tree that is a window.
pub open spec fn window_of(n: LayoutNode) -> Option<usize> {
    match n {
        LayoutNode::Leaf { window_id } => Some(window_id),
        LayoutNode::Split { .. } => None,
    }
}

/// `new` and `sibling` are what removing the window `t` from `old` gives.
/// A split whose own child is the window `t` (the first such child) loses
/// it and its constraint; left with one child, the split is replaced by that
/// child, and where the child is a window its id is the sibling. Otherwise
/// the first child holding `t` is changed in the same way. A tree that does
/// not hold `t`, or is the window `t` alone, stays as it is.
#[verifier::opaque]
pub open spec fn removal(old: LayoutNode, new: LayoutNode, t: usize, sibling: Option<usize>) -> bool
    decreases old,
{
    match old {
        LayoutNode::Leaf { .. } => new == old && sibling is None,
        LayoutNode::Split { direction, constraints, children } => {
            let s = children@;
            match first_where(s, is_window(t), 0) {
                Some(i) => {
                    let rest = s.remove(i);
                    let cs = if i < constraints@.len() {
                        constraints@.remove(i)
                    } else {
                        constraints@
                    };
                    if rest.len() == 1 {
                        new == rest[0] && sibling == window_of(rest[0])
                    } else {
                        &&& new matches LayoutNode::Split { direction: d2, constraints: c2, children: ch2 }
                        &&& d2 == direction
                        &&& c2@ == cs
                        &&& ch2@ == rest
                        &&& sibling is None
                    }
                },
                None => match first_where(s, holds_window(t), 0) {
                    Some(j) => {
                        proof {
                            lemma_first_where_range(s, holds_window(t), 0);
                            assert(decreases_to!(old => old->children));
                            assert(decreases_to!(old->children => s));
                            assert(decreases_to!(s => s[j]));
                        }
                        &&& new matches LayoutNode::Split { direction: d2, constraints: c2, children: ch2 }
                        &&& d2 == direction
                        &&& c2@ == constraints@
                        &&& ch2@.len() == s.len()
                        &&& forall|k: int| 0 <= k < s.len() && k != j ==> ch2@[k] == s[k]
                        &&& removal(s[j], ch2@[j], t, sibling)
                    },
                    None => new == old && sibling is None,
                },
            }
        },
    }
}

pub proof fn lemma_first_where_range(s: Seq<LayoutNode>, p: spec_fn(LayoutNode) -> bool, i: int)
    requires
        0 <= i,
    ensures
        first_where(s, p, i) matches Some(j) ==> i <= j < s.len() && p(s[j]),
    decreases s.len() - i,
{
    if i < s.len() && !p(s[i]) {
        lemma_first_where_range(s, p, i + 1);
    }
}

proof fn lemma_first_where_found(s: Seq<LayoutNode>, p: spec_fn(LayoutNode) -> bool, i: int, j: int)
    requires
        0 <= i <= j < s.len(),
        p(s[j]),
        forall|k: int| i <= k < j ==> !p(#[trigger] s[k]),
    ensures
        first_where(s, p, i) == Some(j),
    decreases j - i,
{
    if i < j {
        lemma_first_where_found(s, p, i + 1, j);
    }
}

/// Removing a window that a tree does not hold leaves the tree as it is.
proof fn lemma_removal_absent(n: LayoutNode, t: usize)
    requires
        !leaves(n).contains(t),
    ensures
        removal(n, n, t, None),
{
    reveal(removal);
    if let LayoutNode::Split { children, .. } = n {
        let s = children@;
        lemma_leaves_of_contains(s, t);
        assert forall|k: int| 0 <= k < s.len() implies !is_window(t)(#[trigger] s[k]) by {
            if s[k] == (LayoutNode::Leaf { window_id: t }) {
                assert(leaves(s[k])[0] == t);
            }
        }
        lemma_first_where_none(s, is_window(t), 0);
        assert forall|k: int| 0 <= k < s.len() implies !holds_window(t)(#[trigger] s[k]) by {}
        lemma_first_where_none(s, holds_window(t), 0);
    }
}

proof fn lemma_first_where_none(s: Seq<LayoutNode>, p: spec_fn(LayoutNode) -> bool, i: int)
    requires
        0 <= i <= s.len(),
        forall|k: int| i <= k < s.len() ==> !p(#[trigger] s[k]),
    ensures
        first_where(s, p, i) is None,
    decreases s.len() - i,
{
    if i < s.len() {
        lemma_first_where_none(s, p, i + 1);
    }
}

/// Removing either window of a split of two windows (such as `split_leaf`
/// makes) replaces the split by the other window and reports that window
/// as the sibling.
pub proof fn law_removing_from_a_pair_leaves_the_sibling(
    n: LayoutNode,
    dir: SplitDirection,
    a: usize,
    b: usize,
    new: LayoutNode,
    sibling: Option<usize>,
)
    requires
        is_pair_split(n, dir, a, b),
        a != b,
    ensures
        removal(n, new, b, sibling) ==> new == (LayoutNode::Leaf { window_id: a }) && sibling == Some(a),
        removal(n, new, a, sibling) ==> new == (LayoutNode::Leaf { window_id: b }) && sibling == Some(b),
{
    reveal(removal);
    let s = n->children@;
    let la = LayoutNode::Leaf { window_id: a };
    let lb = LayoutNode::Leaf { window_id: b };
    assert(s[0] == la && s[1] == lb);
    assert(!is_window(b)(s[0]));
    lemma_first_where_found(s, is_window(b), 0, 1);
    lemma_first_where_found(s, is_window(a), 0, 0);
    assert(s.remove(1) =~= seq![la]);
    assert(s.remove(0) =~= seq![lb]);
}

/// Splitting a window and then removing the window that the split made gives
/// back the windows there were, in their order, whenever the new id was not
/// one of them (whichever neighbour `remove_leaf` reports).
pub proof fn law_split_then_remove_restores_windows(
    before: Seq<usize>,
    mid: Seq<usize>,
    after: Seq<usize>,
    t: usize,
    new_id: usize,
    sibling: Option<usize>,
)
    requires
        !before.contains(new_id),
        split_at_first(before, mid, t, new_id),
        match sibling {
            Some(w) => removed_beside(mid, after, new_id, w),
            None => removed_one(mid, after, new_id),
        },
    ensures
        after == before,
{
    let k = choose|k: int|
        0 <= k < before.len() && before[k] == t && !before.take(k).contains(t) && mid == before.insert(
            k + 1,
            new_id,
        );
    let k2 = match sibling {
        Some(w) => choose|k2: int|
            0 <= k2 < mid.len() && mid[k2] == new_id && after == mid.remove(k2) && ((0 < k2 && mid[k2
                - 1] == w) || (k2 + 1 < mid.len() && mid[k2 + 1] == w)),
        None => choose|k2: int| 0 <= k2 < mid.len() && mid[k2] == new_id && after == mid.remove(k2),
    };
    assert(0 <= k2 < mid.len() && mid[k2] == new_id && after == mid.remove(k2));
    if k2 < k + 1 {
        assert(mid[k2] == before[k2]);
    } else if k2 > k + 1 {
        assert(mid[k2] == before[k2 - 1]);
    }
    assert(after =~= before);
}

impl LayoutNode {
    /// Whether a window of this tree has the id `t`.
    fn contains_leaf(&self, t: usize) -> (r: bool)
        ensures
            r == leaves(*self).contains(t),
        decreases self,
    {
        match self {
            LayoutNode::Leaf { window_id } => {
                proof {
                    assert(leaves(*self)[0] == *window_id);
                    if leaves(*self).contains(t) {
                        let q = choose|q: int| 0 <= q < leaves(*self).len() && leaves(*self)[q] == t;
                        assert(q == 0);
                    }
                }
                *window_id == t
            },
            LayoutNode::Split { children, .. } => {
                proof {
                    lemma_leaves_of_contains(children@, t);
                }
                let mut i: usize = 0;
                while i < children.len()
                    invariant
                        i <= children.len(),
                        *self is Split,
                        (*self)->children == *children,
                        leaves(*self) == leaves_of(children@),
                        leaves_of(children@).contains(t) <==> exists|j: int|
                            0 <= j < children@.len() && leaves(#[trigger] children@[j]).contains(t),
                        forall|j: int| 0 <= j < i ==> !leaves(#[trigger] children@[j]).contains(t),
                    decreases children.len() - i,
                {
                    proof {
                        assert(decreases_to!(*self => (*self)->children));
                        assert(decreases_to!((*self)->children => children@));
                        assert(decreases_to!(children@ => children@[i as int]));
                    }
                    if children[i].contains_leaf(t) {
                        assert(leaves(children@[i as int]).contains(t));
                        return true;
                    }
                    i = i + 1;
                }
                false
            },
        }
    }
    /// The tree with its first window `t` (in the order of `leaves`) split
    /// into `t` and `new_id`, halves each; whether `t` was found.
    fn split_owned(self, t: usize, new_id: usize, direction: SplitDirection) -> (res: (bool, LayoutNode))
        ensures
            res.0 == leaves(self).contains(t),
            !res.0 ==> res.1 == self,
            res.0 ==> res.1 is Split && split_at_first(leaves(self), leaves(res.1), t, new_id),
            res.0 ==> holds_pair_split(res.1, direction, t, new_id),
        decreases self,
    {
        if !self.contains_leaf(t) {
            return (false, self);
        }
        let ghost old_self = self;
        match self {
            LayoutNode::Leaf { window_id } => {
                let mut constraints: Vec<SizeConstraint> = Vec::new();
                constraints.push(SizeConstraint::Percentage(HALF_WEIGHT));
                constraints.push(SizeConstraint::Percentage(HALF_WEIGHT));
                let mut children: Vec<LayoutNode> = Vec::new();
                children.push(LayoutNode::Leaf { window_id: t });
                children.push(LayoutNode::Leaf { window_id: new_id });
                let res = LayoutNode::Split { direction, constraints, children };
                proof {
                    assert(constraints@ =~= seq![
                        SizeConstraint::Percentage(HALF_WEIGHT),
                        SizeConstraint::Percentage(HALF_WEIGHT),
                    ]);
                    assert(children@ =~= seq![LayoutNode::Leaf { window_id: t }, LayoutNode::Leaf { window_id: new_id }]);
                    assert(is_pair_split(res, direction, t, new_id));
                    let l = leaves(old_self);
                    assert(l =~= seq![window_id]);
                    let q = choose|q: int| 0 <= q < l.len() && l[q] == t;
                    assert(q == 0);
                    let a = LayoutNode::Leaf { window_id: t };
                    let b = LayoutNode::Leaf { window_id: new_id };
                    assert(children@ =~= seq![a] + seq![b]);
                    lemma_leaves_of_concat(seq![a], seq![b]);
                    lemma_leaves_of_single(a);
                    lemma_leaves_of_single(b);
                    assert(leaves(res) =~= seq![t, new_id]);
                    assert(l.insert(1, new_id) =~= seq![t, new_id]);
                    assert(l.take(0) =~= Seq::<usize>::empty());
                    assert(0 <= 0int < l.len() && l[0] == t && !l.take(0int).contains(t) && leaves(res)
                        == l.insert(0int + 1, new_id));
                }
                (true, res)
            },
            LayoutNode::Split { direction: d, constraints, mut children } => {
                let ghost s = children@;
                proof {
                    lemma_leaves_of_contains(s, t);
                }
                let mut i: usize = 0;
                loop
                    invariant
                        i < children.len(),
                        children@ == s,
                        old_self is Split,
                        old_self->children == children,
                        leaves(old_self) == leaves_of(s),
                        forall|j: int| 0 <= j < i ==> !leaves(#[trigger] s[j]).contains(t),
                        exists|j: int| i <= j < s.len() && leaves(#[trigger] s[j]).contains(t),
                    ensures
                        i < children.len(),
                        children@ == s,
                        old_self is Split,
                        old_self->children == children,
                        leaves(old_self) == leaves_of(s),
                        forall|j: int| 0 <= j < i ==> !leaves(#[trigger] s[j]).contains(t),
                        leaves(s[i as int]).contains(t),
                    decreases children.len() - i,
                {
                    proof {
                        assert(decreases_to!(old_self => old_self->children));
                        assert(decreases_to!(old_self->children => children@));
                        assert(decreases_to!(children@ => children@[i as int]));
                    }
                    if children[i].contains_leaf(t) {
                        break;
                    }
                    proof {
                        let j = choose|j: int| i <= j < s.len() && leaves(#[trigger] s[j]).contains(t);
                        assert(j != i);
                    }
                    i = i + 1;
                }
                proof {
                    assert(decreases_to!(old_self => old_self->children));
                    assert(decreases_to!(old_self->children => children@));
                    assert(decreases_to!(children@ => children@[i as int]));
                }
                let child = children.remove(i);
                let (found, c2) = child.split_owned(t, new_id, direction);
                children.insert(i, c2);
                let res = LayoutNode::Split { direction: d, constraints, children };
                proof {
                    let ii = i as int;
                    let s2 = children@;
                    assert(s2 =~= s.update(ii, c2));
                    lemma_pair_split_among(s2, direction, t, new_id, ii);
                    lemma_leaves_of_around(s, ii);
                    lemma_leaves_of_around(s2, ii);
                    assert(s2.take(ii) =~= s.take(ii));
                    assert(s2.skip(ii + 1) =~= s.skip(ii + 1));
                    lemma_leaves_of_contains(s.take(ii), t);
                    let p = leaves_of(s.take(ii));
                    let lc = leaves(s[ii]);
                    let r = leaves_of(s.skip(ii + 1));
                    let l = leaves(old_self);
                    assert(!p.contains(t)) by {
                        if p.contains(t) {
                            let j = choose|j: int| 0 <= j < s.take(ii).len() && leaves(#[trigger] s.take(ii)[j]).contains(t);
                            assert(s.take(ii)[j] == s[j]);
                        }
                    }
                    let kc = choose|kc: int|
                        0 <= kc < lc.len() && lc[kc] == t && !lc.take(kc).contains(t) && leaves(c2)
                            == lc.insert(kc + 1, new_id);
                    let k = p.len() + kc;
                    assert(l == p + lc + r);
                    assert(l[k] == t);
                    assert(l.take(k) =~= p + lc.take(kc));
                    assert(!l.take(k).contains(t)) by {
                        if l.take(k).contains(t) {
                            let q = choose|q: int| 0 <= q < l.take(k).len() && l.take(k)[q] == t;
                            if q < p.len() {
                                assert(p[q] == t);
                            } else {
                                assert(lc.take(kc)[q - p.len()] == t);
                            }
                        }
                    }
                    assert(leaves(res) =~= l.insert(k + 1, new_id));
                    assert(0 <= k < l.len() && l[k] == t && !l.take(k).contains(t) && leaves(res) == l.insert(
                        k + 1,
                        new_id,
                    ));
                }
                (true, res)
            },
        }
    }

    /// Splits the first window `target_id` of the tree (in the order of
    /// `leaves`) into a split in `direction` of itself and a new window
    /// `new_id`, each taking half; tells whether the window was found, and
    /// leaves the tree as it was where it was not.
    pub fn split_leaf(&mut self, target_id: usize, new_id: usize, direction: SplitDirection) -> (r: bool)
        ensures
            r == leaves(*old(self)).contains(target_id),
            !r ==> *final(self) == *old(self),
            r ==> *final(self) is Split,
            r ==> split_at_first(leaves(*old(self)), leaves(*final(self)), target_id, new_id),
            r ==> holds_pair_split(*final(self), direction, target_id, new_id),
    {
        let mut node = LayoutNode::Leaf { window_id: 0 };
        std::mem::swap(&mut node, self);
        let (found, result) = node.split_owned(target_id, new_id, direction);
        *self = result;
        found
    }
    /// The tree without the window `t`, the window that took the place of
    /// the split that held `t` where that split was left with one window,
    /// and whether `t` was found. A split's own window children are looked
    /// at before its nested splits; a tree that is the window `t` itself
    /// stays as it is.
    fn remove_owned(self, t: usize) -> (res: (bool, Option<usize>, LayoutNode))
        ensures
            res.0 == leaves(self).contains(t),
            !res.0 ==> res.1 is None && res.2 == self,
            res.0 && self is Leaf ==> res.1 is None && res.2 == self,
            res.0 && self is Split ==> match res.1 {
                Some(w) => removed_beside(leaves(self), leaves(res.2), t, w),
                None => removed_one(leaves(self), leaves(res.2), t),
            },
            removal(self, res.2, t, res.1),
        decreases self,
    {
        if !self.contains_leaf(t) {
            proof {
                lemma_removal_absent(self, t);
            }
            return (false, None, self);
        }
        let ghost old_self = self;
        match self {
            LayoutNode::Leaf { window_id } => {
                proof {
                    reveal(removal);
                }
                (true, None, LayoutNode::Leaf { window_id })
            },
            LayoutNode::Split { direction, mut constraints, mut children } => {
                let ghost s = children@;
                let ghost c0 = constraints@;
                let ghost l = leaves(old_self);
                assert(old_self->constraints@ == c0);
                let mut idx: usize = 0;
                while idx < children.len()
                    invariant
                        idx <= children.len(),
                        children@ == s,
                        forall|j: int| 0 <= j < idx ==> !(#[trigger] s[j] == (LayoutNode::Leaf { window_id: t })),
                    ensures
                        idx <= children.len(),
                        children@ == s,
                        forall|j: int| 0 <= j < idx ==> !(#[trigger] s[j] == (LayoutNode::Leaf { window_id: t })),
                        idx < children.len() ==> s[idx as int] == (LayoutNode::Leaf { window_id: t }),
                    decreases children.len() - idx,
                {
                    let direct = match &children[idx] {
                        LayoutNode::Leaf { window_id } => *window_id == t,
                        LayoutNode::Split { .. } => false,
                    };
                    if direct {
                        break;
                    }
                    idx = idx + 1;
                }
                if idx < children.len() {
                    let ghost ii = idx as int;
                    let _gone = children.remove(idx);
                    if idx < constraints.len() {
                        let _share = constraints.remove(idx);
                    }
                    proof {
                        lemma_remove_direct(s, ii, t);
                        assert(children@ =~= s.remove(ii));
                        assert forall|k: int| 0 <= k < ii implies !is_window(t)(#[trigger] s[k]) by {}
                        lemma_first_where_found(s, is_window(t), 0, ii);
                        reveal(removal);
                    }
                    if children.len() == 1 {
                        let rest = children.remove(0);
                        let sibling = match &rest {
                            LayoutNode::Leaf { window_id } => Some(*window_id),
                            LayoutNode::Split { .. } => None,
                        };
                        proof {
                            let k: int = leaves_of(s.take(ii)).len() as int;
                            let s1 = s.remove(ii);
                            assert(s1 =~= seq![rest]);
                            lemma_leaves_of_single(rest);
                            assert(leaves(rest) == l.remove(k));
                            if let Some(w) = sibling {
                                assert(leaves(rest) =~= seq![w]);
                                assert(l.len() == 2);
                                if k == 0 {
                                    assert(l.remove(k)[0] == l[1]);
                                } else {
                                    assert(l.remove(k)[0] == l[0]);
                                }
                                assert(0 <= k < l.len() && l[k] == t && leaves(rest) == l.remove(k) && ((0 < k
                                    && l[k - 1] == w) || (k + 1 < l.len() && l[k + 1] == w)));
                            } else {
                                assert(0 <= k < l.len() && l[k] == t && leaves(rest) == l.remove(k));
                            }
                        }
                        proof {
                            assert(s.remove(ii)[0] == rest);
                            assert(removal(old_self, rest, t, sibling));
                        }
                        return (true, sibling, rest);
                    }
                    let res = LayoutNode::Split { direction, constraints, children };
                    proof {
                        let k: int = leaves_of(s.take(ii)).len() as int;
                        assert(0 <= k < l.len() && l[k] == t && leaves(res) == l.remove(k));
                        assert(removal(old_self, res, t, None));
                    }
                    return (true, None, res);
                }
                proof {
                    lemma_leaves_of_contains(s, t);
                }
                let mut i: usize = 0;
                loop
                    invariant
                        i < children.len(),
                        children@ == s,
                        old_self is Split,
                        old_self->children == children,
                        leaves(old_self) == leaves_of(s),
                        forall|j: int| 0 <= j < i ==> !leaves(#[trigger] s[j]).contains(t),
                        exists|j: int| i <= j < s.len() && leaves(#[trigger] s[j]).contains(t),
                    ensures
                        i < children.len(),
                        children@ == s,
                        old_self is Split,
                        old_self->children == children,
                        leaves(old_self) == leaves_of(s),
                        forall|j: int| 0 <= j < i ==> !leaves(#[trigger] s[j]).contains(t),
                        leaves(s[i as int]).contains(t),
                    decreases children.len() - i,
                {
                    proof {
                        assert(decreases_to!(old_self => old_self->children));
                        assert(decreases_to!(old_self->children => children@));
                        assert(decreases_to!(children@ => children@[i as int]));
                    }
                    if children[i].contains_leaf(t) {
                        break;
                    }
                    proof {
                        let j = choose|j: int| i <= j < s.len() && leaves(#[trigger] s[j]).contains(t);
                        assert(j != i);
                    }
                    i = i + 1;
                }
                proof {
                    assert(decreases_to!(old_self => old_self->children));
                    assert(decreases_to!(old_self->children => children@));
                    assert(decreases_to!(children@ => children@[i as int]));
                    let ii = i as int;
                    if s[ii] is Leaf {
                        let lc = leaves(s[ii]);
                        assert(lc =~= seq![s[ii]->window_id]);
                        let q = choose|q: int| 0 <= q < lc.len() && lc[q] == t;
                        assert(q == 0);
                        assert(s[ii] == LayoutNode::Leaf { window_id: t });
                    }
                }
                let child = children.remove(i);
                let (_found, sibling, c2) = child.remove_owned(t);
                children.insert(i, c2);
                let res = LayoutNode::Split { direction, constraints, children };
                proof {
                    assert(children@ =~= s.update(i as int, c2));
                    lemma_remove_nested(s, i as int, c2, t, sibling);
                    assert forall|k: int| 0 <= k < s.len() implies !is_window(t)(#[trigger] s[k]) by {}
                    lemma_first_where_none(s, is_window(t), 0);
                    assert forall|k: int| 0 <= k < i implies !holds_window(t)(#[trigger] s[k]) by {}
                    lemma_first_where_found(s, holds_window(t), 0, i as int);
                    reveal(removal);
                    assert(removal(old_self, res, t, sibling));
                }
                (true, sibling, res)
            },
        }
    }

    /// Removes the window `target_id` from the tree. A split that is left
    /// with one child is replaced by that child, and where that child is a
    /// window its id comes back as the second value. The first value tells
    /// whether the window was found; a tree that is that window alone stays
    /// as it is.
    pub fn remove_leaf(&mut self, target_id: usize) -> (r: (bool, Option<usize>))
        ensures
            r.0 == leaves(*old(self)).contains(target_id),
            !r.0 ==> r.1 is None && *final(self) == *old(self),
            r.0 && *old(self) is Leaf ==> r.1 is None && *final(self) == *old(self),
            r.0 && *old(self) is Split ==> match r.1 {
                Some(w) => removed_beside(leaves(*old(self)), leaves(*final(self)), target_id, w),
                None => removed_one(leaves(*old(self)), leaves(*final(self)), target_id),
            },
            removal(*old(self), *final(self), target_id, r.1),
    {
        let mut node = LayoutNode::Leaf { window_id: 0 };
        std::mem::swap(&mut node, self);
        let (found, sibling, result) = node.remove_owned(target_id);
        *self = result;
        (found, sibling)
    }
}

} // verus!
