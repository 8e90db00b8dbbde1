//! Searching text: every occurrence of a string, the words of a text, and
//! the word before, after or under a byte position. Positions are byte
//! offsets into the text.
use vstd::prelude::*;
use vstd::string::{StrSliceExecFns, StringSliceAdditionalSpecFns};
use vstd::utf8::{encode_scalar, encode_utf8};
use crate::text_util::{is_alphanumeric, is_alphanumeric_spec, is_whitespace, is_whitespace_spec, str_eq, str_to_chars};

verus! {

// ---------------------------------------------------------------------------
// Byte offsets of characters
// ---------------------------------------------------------------------------

/// The byte offset of the `i`-th character of `s`.
pub open spec fn byte_offset(s: Seq<char>, i: int) -> int {
    encode_utf8(s.subrange(0, i)).len() as int
}

/// Encoding a concatenation concatenates the encodings.
pub proof fn lemma_encode_concat(a: Seq<char>, b: Seq<char>)
    ensures
        encode_utf8(a + b) == encode_utf8(a) + encode_utf8(b),
    decreases a.len(),
{
    if a.len() == 0 {
        assert(a + b =~= b);
        assert(encode_utf8(a) =~= Seq::<u8>::empty());
        assert(encode_utf8(a) + encode_utf8(b) =~= encode_utf8(b));
    } else {
        lemma_encode_concat(a.drop_first(), b);
        assert((a + b).drop_first() =~= a.drop_first() + b);
        assert((a + b)[0] == a[0]);
        assert(encode_scalar(a[0] as u32) + (encode_utf8(a.drop_first()) + encode_utf8(b)) =~= (encode_scalar(
            a[0] as u32,
        ) + encode_utf8(a.drop_first())) + encode_utf8(b));
    }
}

/// Each character moves the byte offset by its encoded length.
pub proof fn lemma_offset_step(s: Seq<char>, i: int)
    requires
        0 <= i < s.len(),
    ensures
        byte_offset(s, i + 1) == byte_offset(s, i) + encode_scalar(s[i] as u32).len(),
{
    let p = s.subrange(0, i);
    assert(s.subrange(0, i + 1) =~= p + seq![s[i]]);
    lemma_encode_concat(p, seq![s[i]]);
    assert(seq![s[i]].drop_first() =~= Seq::<char>::empty());
    assert(encode_utf8(Seq::<char>::empty()) =~= Seq::<u8>::empty());
    assert(encode_utf8(seq![s[i]]) =~= encode_scalar(s[i] as u32));
}

/// A byte offset lies within the text's bytes.
pub proof fn lemma_offset_bound(s: Seq<char>, i: int)
    requires
        0 <= i <= s.len(),
    ensures
        0 <= byte_offset(s, i) <= encode_utf8(s).len(),
{
    assert(s =~= s.subrange(0, i) + s.subrange(i, s.len() as int));
    lemma_encode_concat(s.subrange(0, i), s.subrange(i, s.len() as int));
}

/// Byte offsets grow with the character index.
pub proof fn lemma_offset_monotone(s: Seq<char>, i: int, j: int)
    requires
        0 <= i <= j <= s.len(),
    ensures
        byte_offset(s, i) <= byte_offset(s, j),
        i < j ==> byte_offset(s, i) < byte_offset(s, j),
    decreases j - i,
{
    if i < j {
        lemma_offset_monotone(s, i, j - 1);
        lemma_offset_step(s, j - 1);
        lemma_scalar_len_pos(s[j - 1]);
    }
}

/// A character takes one to four bytes.
pub proof fn lemma_scalar_len_pos(c: char)
    ensures
        1 <= encode_scalar(c as u32).len() <= 4,
{
}

/// The number of bytes that encode `c`, as `char::len_utf8` gives it.
pub fn char_width(c: char) -> (w: usize)
    ensures
        w == encode_scalar(c as u32).len(),
{
    let v = c as u32;
    if v < 0x80 {
        1
    } else if v < 0x800 {
        2
    } else if v < 0x10000 {
        proof {
            vstd::utf8::char_is_scalar(c);
        }
        3
    } else {
        4
    }
}

// ---------------------------------------------------------------------------
// Occurrences
// ---------------------------------------------------------------------------

/// Whether `t` occurs in `s` at character `j`.
pub open spec fn occurs_at(s: Seq<char>, t: Seq<char>, j: int) -> bool {
    0 <= j && j + t.len() <= s.len() && s.subrange(j, j + t.len()) == t
}

/// The character indices below `k` at which `t` occurs in `s`, in order.
pub open spec fn occurrences_below(s: Seq<char>, t: Seq<char>, k: int) -> Seq<int>
    decreases k,
{
    if k <= 0 {
        Seq::empty()
    } else if occurs_at(s, t, k - 1) {
        occurrences_below(s, t, k - 1).push(k - 1)
    } else {
        occurrences_below(s, t, k - 1)
    }
}

/// Every character index at which `t` occurs in `s`, in order; none for an
/// empty `t`.
pub open spec fn occurrences(s: Seq<char>, t: Seq<char>) -> Seq<int> {
    if t.len() == 0 {
        Seq::empty()
    } else {
        occurrences_below(s, t, s.len() as int + 1)
    }
}

/// Whether the text at character `j` equals `t`.
fn matches_at(s: &Vec<char>, t: &Vec<char>, j: usize) -> (b: bool)
    requires
        j + t@.len() <= s@.len(),
    ensures
        b == occurs_at(s@, t@, j as int),
{
    let mut i: usize = 0;
    let sl = s.len();
    while i < t.len()
        invariant
            i <= t@.len(),
            sl == s@.len(),
            j + t@.len() <= s@.len(),
            forall|q: int| 0 <= q < i ==> s@[j + q] == t@[q],
        decreases t@.len() - i,
    {
        if s[j + i] != t[i] {
            proof {
                assert(s@.subrange(j as int, j + t@.len())[i as int] == s@[j + i]);
            }
            return false;
        }
        i = i + 1;
    }
    proof {
        assert(s@.subrange(j as int, j + t@.len()) =~= t@);
    }
    true
}

proof fn lemma_occurrences_below(s: Seq<char>, t: Seq<char>, k: int)
    ensures
        forall|j: int| j < k ==> (occurs_at(s, t, j) <==> occurrences_below(s, t, k).contains(j)),
        forall|u: int| 0 <= u < occurrences_below(s, t, k).len() ==> 0 <= #[trigger] occurrences_below(s, t, k)[u] < k,
        forall|u: int, v: int|
            0 <= u < v < occurrences_below(s, t, k).len() ==> occurrences_below(s, t, k)[u] < occurrences_below(
                s,
                t,
                k,
            )[v],
    decreases k,
{
    if k > 0 {
        lemma_occurrences_below(s, t, k - 1);
        let prev = occurrences_below(s, t, k - 1);
        let cur = occurrences_below(s, t, k);
        assert forall|j: int| j < k implies (occurs_at(s, t, j) <==> cur.contains(j)) by {
            if occurs_at(s, t, k - 1) {
                assert(cur == prev.push(k - 1));
                if cur.contains(j) && j != k - 1 {
                    let u = choose|u: int| 0 <= u < cur.len() && cur[u] == j;
                    assert(u < prev.len());
                    assert(prev[u] == j);
                }
                if j < k - 1 && prev.contains(j) {
                    let u = choose|u: int| 0 <= u < prev.len() && prev[u] == j;
                    assert(cur[u] == j);
                }
                if j == k - 1 {
                    assert(cur[prev.len() as int] == j);
                }
            } else {
                if j == k - 1 && cur.contains(j) {
                    let u = choose|u: int| 0 <= u < cur.len() && cur[u] == j;
                    assert(prev[u] < k - 1);
                }
            }
        }
    } else {
        assert forall|j: int| j < k implies (occurs_at(s, t, j) <==> occurrences_below(s, t, k).contains(j)) by {
            assert(!occurs_at(s, t, j));
        }
    }
}

/// The occurrences of a non-empty text are exactly the character positions
/// at which it occurs, in increasing order.
pub proof fn law_occurrences_are_every_match_in_order(s: Seq<char>, t: Seq<char>)
    requires
        t.len() > 0,
    ensures
        forall|j: int| occurs_at(s, t, j) <==> occurrences(s, t).contains(j),
        forall|u: int, v: int| 0 <= u < v < occurrences(s, t).len() ==> occurrences(s, t)[u] < occurrences(s, t)[v],
{
    let k = s.len() as int + 1;
    lemma_occurrences_below(s, t, k);
    assert forall|j: int| occurs_at(s, t, j) <==> occurrences(s, t).contains(j) by {
        if j >= k {
            assert(!occurs_at(s, t, j));
            if occurrences(s, t).contains(j) {
                let u = choose|u: int| 0 <= u < occurrences(s, t).len() && occurrences(s, t)[u] == j;
            }
        }
    }
}

// ---------------------------------------------------------------------------
// Words
// ---------------------------------------------------------------------------

/// A word character: alphanumeric or `_`.
pub open spec fn is_word_char(c: char) -> bool {
    is_alphanumeric_spec(c) || c == '_'
}

/// The state of the word scan after the first `i` characters: where the
/// open word started, whether it is made of word characters, and the
/// words closed so far as character ranges.
pub open spec fn scan_words(s: Seq<char>, i: int) -> (Option<int>, bool, Seq<(int, int)>)
    decreases i,
{
    if i <= 0 {
        (None, false, Seq::empty())
    } else {
        let (open, alnum, words) = scan_words(s, i - 1);
        let c = s[i - 1];
        if is_whitespace_spec(c) {
            match open {
                Some(st) => (None, alnum, words.push((st, i - 1))),
                None => (None, alnum, words),
            }
        } else {
            match open {
                Some(st) => if is_word_char(c) != alnum {
                    (Some(i - 1), is_word_char(c), words.push((st, i - 1)))
                } else {
                    (Some(st), alnum, words)
                },
                None => (Some(i - 1), is_word_char(c), words),
            }
        }
    }
}

/// The words of `s` as character ranges: maximal runs of word characters,
/// and maximal runs of other characters that are not white space.
pub open spec fn word_ranges(s: Seq<char>) -> Seq<(int, int)> {
    let (open, _, words) = scan_words(s, s.len() as int);
    match open {
        Some(st) => words.push((st, s.len() as int)),
        None => words,
    }
}

proof fn lemma_scan_words(s: Seq<char>, i: int)
    requires
        0 <= i <= s.len(),
    ensures
        ({
            let (open, _, words) = scan_words(s, i);
            &&& forall|w: int| 0 <= w < words.len() ==> 0 <= (#[trigger] words[w]).0 < words[w].1 <= i
            &&& forall|w: int| 0 < w < words.len() ==> words[w - 1].1 <= (#[trigger] words[w]).0
            &&& match open {
                Some(st) => 0 <= st < i && (words.len() > 0 ==> words.last().1 <= st),
                None => true,
            }
        }),
    decreases i,
{
    if i > 0 {
        lemma_scan_words(s, i - 1);
    }
}

/// Whether the characters `a..b` of `s` are all of one class, word
/// characters when `cls` holds and other characters otherwise, with no white
/// space among them.
pub open spec fn one_class(s: Seq<char>, a: int, b: int, cls: bool) -> bool {
    forall|k: int| a <= k < b ==> !is_whitespace_spec(#[trigger] s[k]) && is_word_char(s[k]) == cls
}

/// Whether one of the ranges `ws` holds the character at `k`.
pub open spec fn covered_by(ws: Seq<(int, int)>, k: int) -> bool {
    exists|u: int| 0 <= u < ws.len() && (#[trigger] ws[u]).0 <= k < ws[u].1
}

/// What holds of the word scan after the first `i` characters.
spec fn scan_inv(s: Seq<char>, i: int) -> bool {
    let (open, alnum, words) = scan_words(s, i);
    &&& forall|w: int|
        0 <= w < words.len() ==> 0 <= (#[trigger] words[w]).0 < words[w].1 <= i && one_class(
            s,
            words[w].0,
            words[w].1,
            is_word_char(s[words[w].0]),
        )
    &&& forall|w: int| 0 < w < words.len() ==> words[w - 1].1 <= (#[trigger] words[w]).0
    &&& forall|w: int|
        0 < w < words.len() && words[w - 1].1 == (#[trigger] words[w]).0 ==> is_word_char(s[words[w - 1].0])
            != is_word_char(s[words[w].0])
    &&& match open {
        Some(st) => {
            &&& 0 <= st < i
            &&& one_class(s, st, i, alnum)
            &&& alnum == is_word_char(s[st])
            &&& words.len() > 0 ==> words.last().1 <= st
            &&& (words.len() > 0 && words.last().1 == st) ==> is_word_char(s[words.last().0]) != alnum
        },
        None => words.len() > 0 ==> words.last().1 < i,
    }
    &&& forall|k: int|
        0 <= k < i && !is_whitespace_spec(#[trigger] s[k]) ==> covered_by(words, k) || (open matches Some(st)
            && st <= k)
}

proof fn lemma_scan_inv(s: Seq<char>, i: int)
    requires
        0 <= i <= s.len(),
    ensures
        scan_inv(s, i),
    decreases i,
{
    if i > 0 {
        lemma_scan_inv(s, i - 1);
        let (open0, alnum0, words0) = scan_words(s, i - 1);
        let (open, alnum, words) = scan_words(s, i);
        let c = s[i - 1];
        assert forall|k: int| 0 <= k < i && !is_whitespace_spec(#[trigger] s[k]) implies covered_by(words, k) || (
        open matches Some(st) && st <= k) by {
            if k < i - 1 {
                if covered_by(words0, k) {
                    let u = choose|u: int| 0 <= u < words0.len() && (#[trigger] words0[u]).0 <= k < words0[u].1;
                    assert(words[u] == words0[u]);
                } else {
                    let st = open0->0;
                    if words.len() == words0.len() + 1 {
                        assert(words[words0.len() as int].0 <= k < words[words0.len() as int].1);
                    }
                }
            }
        }
        assert forall|w: int|
            0 <= w < words.len() implies 0 <= (#[trigger] words[w]).0 < words[w].1 <= i && one_class(
            s,
            words[w].0,
            words[w].1,
            is_word_char(s[words[w].0]),
        ) by {
            if w < words0.len() {
                assert(words[w] == words0[w]);
            }
        }
    }
}

/// The words of a text are its maximal runs of one class between white
/// space: each range lies in the text, holds no white space and only word
/// characters or only other characters; the ranges come in order, two
/// ranges that touch are of different classes, and every character that is
/// not white space lies in a range.
pub proof fn law_words_are_maximal_runs_of_one_class(s: Seq<char>)
    ensures
        ({
            let r = word_ranges(s);
            &&& forall|u: int|
                0 <= u < r.len() ==> 0 <= (#[trigger] r[u]).0 < r[u].1 <= s.len() && one_class(
                    s,
                    r[u].0,
                    r[u].1,
                    is_word_char(s[r[u].0]),
                )
            &&& forall|u: int| 0 < u < r.len() ==> r[u - 1].1 <= (#[trigger] r[u]).0
            &&& forall|u: int|
                0 < u < r.len() && r[u - 1].1 == (#[trigger] r[u]).0 ==> is_word_char(s[r[u - 1].0])
                    != is_word_char(s[r[u].0])
            &&& forall|k: int| 0 <= k < s.len() && !is_whitespace_spec(#[trigger] s[k]) ==> covered_by(r, k)
        }),
{
    let n = s.len() as int;
    lemma_scan_inv(s, n);
    let (open, alnum, words) = scan_words(s, n);
    let r = word_ranges(s);
    if let Some(st) = open {
        assert(r == words.push((st, n)));
        assert forall|k: int| 0 <= k < s.len() && !is_whitespace_spec(#[trigger] s[k]) implies covered_by(r, k) by {
            if covered_by(words, k) {
                let u = choose|u: int| 0 <= u < words.len() && (#[trigger] words[u]).0 <= k < words[u].1;
                assert(r[u] == words[u]);
            } else {
                assert(r[words.len() as int].0 <= k < r[words.len() as int].1);
            }
        }
        assert forall|u: int|
            0 <= u < r.len() implies 0 <= (#[trigger] r[u]).0 < r[u].1 <= s.len() && one_class(
            s,
            r[u].0,
            r[u].1,
            is_word_char(s[r[u].0]),
        ) by {
            if u < words.len() {
                assert(r[u] == words[u]);
            }
        }
    }
}

/// A word as the search functions return it: byte start, byte end or
/// length, and its text.
pub open spec fn word_triple(s: Seq<char>, r: (int, int)) -> (int, int, Seq<char>) {
    (byte_offset(s, r.0), byte_offset(s, r.1), s.subrange(r.0, r.1))
}

/// Whether `v` lists the triples of `ranges` in order.
pub open spec fn lists_words(s: Seq<char>, v: Seq<(usize, usize, &str)>, ranges: Seq<(int, int)>) -> bool {
    &&& v.len() == ranges.len()
    &&& forall|w: int|
        0 <= w < v.len() ==> {
            let t = word_triple(s, ranges[w]);
            &&& (#[trigger] v[w]).0 == t.0
            &&& v[w].1 == t.1
            &&& v[w].2@ == t.2
        }
}

/// Whether `r` is the triple of `range`.
pub open spec fn is_word(s: Seq<char>, r: (usize, usize, &str), range: (int, int)) -> bool {
    let t = word_triple(s, range);
    r.0 == t.0 && r.1 == t.1 && r.2@ == t.2
}

/// The index of the first word of `ws` from `w` on whose byte start is
/// after `pos`, or `ws.len()`.
pub open spec fn first_start_after(s: Seq<char>, ws: Seq<(int, int)>, pos: int, w: int) -> int
    decreases ws.len() - w,
{
    if w >= ws.len() || w < 0 {
        ws.len() as int
    } else if byte_offset(s, ws[w].0) > pos {
        w
    } else {
        first_start_after(s, ws, pos, w + 1)
    }
}

/// The next word after a position is the first one that starts after it:
/// every word before it starts at or before the position.
pub proof fn law_next_word_starts_first_after(s: Seq<char>, ws: Seq<(int, int)>, pos: int, w: int)
    requires
        0 <= w <= ws.len(),
    ensures
        w <= first_start_after(s, ws, pos, w) <= ws.len(),
        forall|u: int| w <= u < first_start_after(s, ws, pos, w) ==> byte_offset(s, (#[trigger] ws[u]).0) <= pos,
        first_start_after(s, ws, pos, w) < ws.len() ==> byte_offset(s, ws[first_start_after(s, ws, pos, w)].0) > pos,
    decreases ws.len() - w,
{
    if w < ws.len() && byte_offset(s, ws[w].0) <= pos {
        law_next_word_starts_first_after(s, ws, pos, w + 1);
    }
}

/// The trait of texts that can be searched.
pub trait TextSearch {
    /// Whether the text's length in bytes fits in a `usize`, as that of any
    /// text in memory does.
    spec fn fits(&self) -> bool;

    /// The texts `find_string` takes: those whose scan does not have to
    /// restart inside a character.
    spec fn finds_string(&self, text: &str) -> bool;

    /// Every occurrence of `text`, overlapping ones included: byte start,
    /// byte length, and the matched text.
    fn find_string(&self, text: &str) -> Vec<(usize, usize, &str)>
        requires
            self.finds_string(text),
    ;

    /// The words: byte start, byte end, and the word.
    fn find_words(&self) -> Vec<(usize, usize, &str)>
        requires
            self.fits(),
    ;

    /// The first word that starts after `position`.
    fn find_next_word(&self, position: usize) -> Option<(usize, usize, &str)>
        requires
            self.fits(),
    ;

    /// The last word that starts before `position`.
    fn find_previous_word(&self, position: usize) -> Option<(usize, usize, &str)>
        requires
            self.fits(),
    ;

    /// The first word whose last byte is after `position`.
    fn find_next_word_end(&self, position: usize) -> Option<(usize, usize, &str)>
        requires
            self.fits(),
    ;

    /// The last word whose last byte is before `position`.
    fn find_previous_word_end(&self, position: usize) -> Option<(usize, usize, &str)>
        requires
            self.fits(),
    ;

    /// The first word whose bytes hold `position`.
    fn find_current_word(&self, position: usize) -> Option<(usize, usize, &str)>
        requires
            self.fits(),
    ;

    /// The first word after `position` that equals `word`.
    fn find_next_same_word(&self, position: usize, word: &str) -> Option<(usize, usize, &str)>
        requires
            self.fits(),
    ;
}

/// The triple of the character range `r` of `s`.
fn word_at<'a>(s: &'a str, chars: &Vec<char>, r: (usize, usize), start_byte: usize, end_byte: usize) -> (t: (
    usize,
    usize,
    &'a str,
))
    requires
        chars@ == s@,
        r.0 <= r.1 <= s@.len(),
        start_byte == byte_offset(s@, r.0 as int),
        end_byte == byte_offset(s@, r.1 as int),
    ensures
        is_word(s@, t, (r.0 as int, r.1 as int)),
{
    (start_byte, end_byte, s.substring_char(r.0, r.1))
}

/// The words of `s` with their byte offsets.
fn words_of<'a>(s: &'a str) -> (v: Vec<(usize, usize, &'a str)>)
    requires
        s.spec_bytes().len() <= usize::MAX,
    ensures
        lists_words(s@, v@, word_ranges(s@)),
{
    let chars = str_to_chars(s);
    let n = chars.len();
    let mut words: Vec<(usize, usize, &'a str)> = Vec::new();
    let mut open: Option<(usize, usize)> = None;
    let mut alnum = false;
    let mut i: usize = 0;
    let mut off: usize = 0;
    let ghost total = encode_utf8(s@).len();
    proof {
        assert(s@.subrange(0, 0) =~= Seq::<char>::empty());
        assert(encode_utf8(Seq::<char>::empty()) =~= Seq::<u8>::empty());
        lemma_offset_bound(s@, n as int);
    }
    while i < n
        invariant
            n == chars@.len(),
            chars@ == s@,
            i <= n,
            off == byte_offset(s@, i as int),
            total == encode_utf8(s@).len(),
            total <= usize::MAX,
            ({
                let (o, a, ws) = scan_words(s@, i as int);
                &&& alnum == a
                &&& match open {
                    Some((st, sb)) => o == Some(st as int) && sb == byte_offset(s@, st as int),
                    None => o is None,
                }
                &&& lists_words(s@, words@, ws)
            }),
        decreases n - i,
    {
        let c = chars[i];
        proof {
            lemma_offset_step(s@, i as int);
            lemma_offset_bound(s@, i + 1);
            lemma_scan_words(s@, i as int);
        }
        let ghost before = words@;
        if is_whitespace(c) {
            match open {
                Some((st, sb)) => {
                    let t = word_at(s, &chars, (st, i), sb, off);
                    words.push(t);
                    open = None;
                    proof {
                        let ws = scan_words(s@, i as int).2;
                        assert forall|w: int| 0 <= w < words@.len() implies {
                            let t2 = word_triple(s@, ws.push((st as int, i as int))[w]);
                            &&& (#[trigger] words@[w]).0 == t2.0
                            &&& words@[w].1 == t2.1
                            &&& words@[w].2@ == t2.2
                        } by {
                            if w < before.len() {
                                assert(words@[w] == before[w]);
                            }
                        }
                    }
                },
                None => {},
            }
        } else {
            let wc = is_alphanumeric(c) || c == '_';
            match open {
                Some((st, sb)) => {
                    if wc != alnum {
                        let t = word_at(s, &chars, (st, i), sb, off);
                        words.push(t);
                        open = Some((i, off));
                        alnum = wc;
                        proof {
                            let ws = scan_words(s@, i as int).2;
                            assert forall|w: int| 0 <= w < words@.len() implies {
                                let t2 = word_triple(s@, ws.push((st as int, i as int))[w]);
                                &&& (#[trigger] words@[w]).0 == t2.0
                                &&& words@[w].1 == t2.1
                                &&& words@[w].2@ == t2.2
                            } by {
                                if w < before.len() {
                                    assert(words@[w] == before[w]);
                                }
                            }
                        }
                    }
                },
                None => {
                    open = Some((i, off));
                    alnum = wc;
                },
            }
        }
        off = off + char_width(c);
        i = i + 1;
    }
    let ghost before = words@;
    match open {
        Some((st, sb)) => {
            proof {
                lemma_scan_words(s@, n as int);
            }
            let t = word_at(s, &chars, (st, n), sb, off);
            words.push(t);
            proof {
                let ws = scan_words(s@, n as int).2;
                assert forall|w: int| 0 <= w < words@.len() implies {
                    let t2 = word_triple(s@, ws.push((st as int, n as int))[w]);
                    &&& (#[trigger] words@[w]).0 == t2.0
                    &&& words@[w].1 == t2.1
                    &&& words@[w].2@ == t2.2
                } by {
                    if w < before.len() {
                        assert(words@[w] == before[w]);
                    }
                }
            }
        },
        None => {},
    }
    words
}

impl TextSearch for str {
    /// An empty text, one that starts with an ASCII character, or one that
    /// does not occur: after a match the scan restarts one byte further on.
    open spec fn finds_string(&self, text: &str) -> bool {
        &&& self.fits()
        &&& text.spec_bytes().len() <= usize::MAX
        &&& text@.len() == 0 || (text@[0] as u32) < 128 || occurrences(self@, text@).len() == 0
    }

    open spec fn fits(&self) -> bool {
        self.spec_bytes().len() <= usize::MAX
    }

    fn find_string(&self, text: &str) -> (v: Vec<(usize, usize, &str)>)
        ensures
            v@.len() == occurrences(self@, text@).len(),
            forall|q: int|
                0 <= q < v@.len() ==> {
                    let j = occurrences(self@, text@)[q];
                    &&& (#[trigger] v@[q]).0 == byte_offset(self@, j)
                    &&& v@[q].1 == text.spec_bytes().len()
                    &&& v@[q].2@ == text@
                },
    {
        let mut matches: Vec<(usize, usize, &str)> = Vec::new();
        let s = str_to_chars(self);
        let t = str_to_chars(text);
        let n = s.len();
        let k = t.len();
        if k == 0 || k > n {
            proof {
                if k > 0 {
                    assert forall|j: int| -1 <= j < n + 1 implies !#[trigger] occurs_at(self@, text@, j) by {}
                    lemma_no_occurrences(self@, text@, n + 1);
                }
            }
            return matches;
        }
        let len = text.len();
        let mut off: usize = 0;
        let mut j: usize = 0;
        proof {
            assert(self@.subrange(0, 0) =~= Seq::<char>::empty());
            assert(encode_utf8(Seq::<char>::empty()) =~= Seq::<u8>::empty());
            lemma_offset_bound(self@, n as int);
        }
        while j <= n - k
            invariant
                n == s@.len(),
                k == t@.len(),
                s@ == self@,
                t@ == text@,
                0 < k <= n,
                j <= n - k + 1,
                off == byte_offset(self@, j as int),
                encode_utf8(self@).len() <= usize::MAX,
                len == text.spec_bytes().len(),
                matches@.len() == occurrences_below(self@, text@, j as int).len(),
                forall|q: int|
                    0 <= q < matches@.len() ==> {
                        let p = occurrences_below(self@, text@, j as int)[q];
                        &&& (#[trigger] matches@[q]).0 == byte_offset(self@, p)
                        &&& matches@[q].1 == len
                        &&& matches@[q].2@ == text@
                    },
            decreases n - k + 1 - j,
        {
            let ghost before = matches@;
            if matches_at(&s, &t, j) {
                matches.push((off, len, self.substring_char(j, j + k)));
                proof {
                    assert forall|q: int| 0 <= q < matches@.len() implies {
                        let p = occurrences_below(self@, text@, j + 1)[q];
                        &&& (#[trigger] matches@[q]).0 == byte_offset(self@, p)
                        &&& matches@[q].1 == len
                        &&& matches@[q].2@ == text@
                    } by {
                        if q < before.len() {
                            assert(matches@[q] == before[q]);
                        }
                    }
                }
            }
            proof {
                lemma_offset_step(self@, j as int);
                lemma_offset_bound(self@, j + 1);
            }
            off = off + char_width(s[j]);
            j = j + 1;
        }
        proof {
            lemma_no_occurrences_above(self@, text@, j as int);
        }
        matches
    }

    fn find_words(&self) -> (v: Vec<(usize, usize, &str)>)
        ensures
            lists_words(self@, v@, word_ranges(self@)),
    {
        words_of(self)
    }

    fn find_next_word(&self, position: usize) -> (r: Option<(usize, usize, &str)>)
        ensures
            ({
                let ws = word_ranges(self@);
                let w = first_start_after(self@, ws, position as int, 0);
                match r {
                    Some(t) => w < ws.len() && is_word(self@, t, ws[w]),
                    None => w == ws.len(),
                }
            }),
    {
        let words = words_of(self);
        let ghost ws = word_ranges(self@);
        let mut i: usize = 0;
        while i < words.len()
            invariant
                lists_words(self@, words@, ws),
                ws == word_ranges(self@),
                i <= words@.len(),
                first_start_after(self@, ws, position as int, 0) == first_start_after(self@, ws, position as int, i as int),
            decreases words@.len() - i,
        {
            if words[i].0 > position {
                return Some(words[i]);
            }
            i = i + 1;
        }
        None
    }

    fn find_previous_word(&self, position: usize) -> (r: Option<(usize, usize, &str)>)
        ensures
            ({
                let ws = word_ranges(self@);
                match r {
                    Some(t) => exists|w: int|
                        0 <= w < ws.len() && is_word(self@, t, #[trigger] ws[w]) && byte_offset(self@, ws[w].0)
                            < position && forall|u: int|
                            w < u < ws.len() ==> byte_offset(self@, (#[trigger] ws[u]).0) >= position,
                    None => forall|u: int| 0 <= u < ws.len() ==> byte_offset(self@, (#[trigger] ws[u]).0) >= position,
                }
            }),
    {
        let words = words_of(self);
        let ghost ws = word_ranges(self@);
        let mut i: usize = words.len();
        while i > 0
            invariant
                lists_words(self@, words@, ws),
                ws == word_ranges(self@),
                i <= words@.len(),
                forall|u: int| i <= u < ws.len() ==> byte_offset(self@, (#[trigger] ws[u]).0) >= position,
            decreases i,
        {
            if words[i - 1].0 < position {
                proof {
                    assert(is_word(self@, words@[i - 1], ws[i - 1]));
                }
                return Some(words[i - 1]);
            }
            i = i - 1;
        }
        None
    }

    fn find_next_word_end(&self, position: usize) -> (r: Option<(usize, usize, &str)>)
        ensures
            ({
                let ws = word_ranges(self@);
                match r {
                    Some(t) => exists|w: int|
                        0 <= w < ws.len() && is_word(self@, t, #[trigger] ws[w]) && byte_offset(self@, ws[w].1) - 1
                            > position && forall|u: int|
                            0 <= u < w ==> byte_offset(self@, (#[trigger] ws[u]).1) - 1 <= position,
                    None => forall|u: int|
                        0 <= u < ws.len() ==> byte_offset(self@, (#[trigger] ws[u]).1) - 1 <= position,
                }
            }),
    {
        let words = words_of(self);
        let ghost ws = word_ranges(self@);
        proof {
            lemma_word_ends_positive(self@);
        }
        let mut i: usize = 0;
        while i < words.len()
            invariant
                lists_words(self@, words@, ws),
                ws == word_ranges(self@),
                forall|u: int| 0 <= u < ws.len() ==> byte_offset(self@, (#[trigger] ws[u]).1) >= 1,
                i <= words@.len(),
                forall|u: int| 0 <= u < i ==> byte_offset(self@, (#[trigger] ws[u]).1) - 1 <= position,
            decreases words@.len() - i,
        {
            proof {
                assert(words@[i as int].1 == byte_offset(self@, ws[i as int].1));
            }
            if words[i].1 - 1 > position {
                return Some(words[i]);
            }
            i = i + 1;
        }
        None
    }

    fn find_previous_word_end(&self, position: usize) -> (r: Option<(usize, usize, &str)>)
        ensures
            ({
                let ws = word_ranges(self@);
                match r {
                    Some(t) => exists|w: int|
                        0 <= w < ws.len() && is_word(self@, t, #[trigger] ws[w]) && byte_offset(self@, ws[w].1) - 1
                            < position && forall|u: int|
                            w < u < ws.len() ==> byte_offset(self@, (#[trigger] ws[u]).1) - 1 >= position,
                    None => forall|u: int|
                        0 <= u < ws.len() ==> byte_offset(self@, (#[trigger] ws[u]).1) - 1 >= position,
                }
            }),
    {
        let words = words_of(self);
        let ghost ws = word_ranges(self@);
        proof {
            lemma_word_ends_positive(self@);
        }
        let mut i: usize = words.len();
        while i > 0
            invariant
                lists_words(self@, words@, ws),
                ws == word_ranges(self@),
                forall|u: int| 0 <= u < ws.len() ==> byte_offset(self@, (#[trigger] ws[u]).1) >= 1,
                i <= words@.len(),
                forall|u: int| i <= u < ws.len() ==> byte_offset(self@, (#[trigger] ws[u]).1) - 1 >= position,
            decreases i,
        {
            proof {
                assert(words@[i - 1].1 == byte_offset(self@, ws[i - 1].1));
            }
            if words[i - 1].1 - 1 < position {
                return Some(words[i - 1]);
            }
            i = i - 1;
        }
        None
    }

    fn find_current_word(&self, position: usize) -> (r: Option<(usize, usize, &str)>)
        ensures
            ({
                let ws = word_ranges(self@);
                match r {
                    Some(t) => exists|w: int|
                        0 <= w < ws.len() && is_word(self@, t, #[trigger] ws[w]) && byte_offset(self@, ws[w].0)
                            <= position < byte_offset(self@, ws[w].1) && forall|u: int|
                            0 <= u < w ==> !(byte_offset(self@, (#[trigger] ws[u]).0) <= position < byte_offset(
                                self@,
                                ws[u].1,
                            )),
                    None => forall|u: int|
                        0 <= u < ws.len() ==> !(byte_offset(self@, (#[trigger] ws[u]).0) <= position < byte_offset(
                            self@,
                            ws[u].1,
                        )),
                }
            }),
    {
        let words = words_of(self);
        let ghost ws = word_ranges(self@);
        let mut i: usize = 0;
        while i < words.len()
            invariant
                lists_words(self@, words@, ws),
                ws == word_ranges(self@),
                i <= words@.len(),
                forall|u: int|
                    0 <= u < i ==> !(byte_offset(self@, (#[trigger] ws[u]).0) <= position < byte_offset(self@, ws[u].1)),
            decreases words@.len() - i,
        {
            if words[i].0 <= position && position < words[i].1 {
                return Some(words[i]);
            }
            i = i + 1;
        }
        None
    }

    fn find_next_same_word(&self, position: usize, word: &str) -> (r: Option<(usize, usize, &str)>)
        ensures
            ({
                let ws = word_ranges(self@);
                match r {
                    Some(t) => exists|w: int|
                        0 <= w < ws.len() && is_word(self@, t, #[trigger] ws[w]) && byte_offset(self@, ws[w].0)
                            > position && t.2@ == word@ && forall|u: int|
                            0 <= u < w && byte_offset(self@, (#[trigger] ws[u]).0) > position ==> self@.subrange(
                                ws[u].0,
                                ws[u].1,
                            ) != word@,
                    None => forall|u: int|
                        0 <= u < ws.len() && byte_offset(self@, (#[trigger] ws[u]).0) > position ==> self@.subrange(
                            ws[u].0,
                            ws[u].1,
                        ) != word@,
                }
            }),
    {
        let words = words_of(self);
        let ghost ws = word_ranges(self@);
        let mut i: usize = 0;
        while i < words.len()
            invariant
                lists_words(self@, words@, ws),
                ws == word_ranges(self@),
                i <= words@.len(),
                forall|u: int|
                    0 <= u < i && byte_offset(self@, (#[trigger] ws[u]).0) > position ==> self@.subrange(
                        ws[u].0,
                        ws[u].1,
                    ) != word@,
            decreases words@.len() - i,
        {
            if words[i].0 > position && str_eq(words[i].2, word) {
                return Some(words[i]);
            }
            i = i + 1;
        }
        None
    }
}

proof fn lemma_no_occurrences(s: Seq<char>, t: Seq<char>, k: int)
    requires
        forall|j: int| -1 <= j < k ==> !#[trigger] occurs_at(s, t, j),
    ensures
        occurrences_below(s, t, k).len() == 0,
    decreases k,
{
    if k > 0 {
        lemma_no_occurrences(s, t, k - 1);
    }
}

proof fn lemma_no_occurrences_above(s: Seq<char>, t: Seq<char>, j: int)
    requires
        t.len() > 0,
        j == s.len() - t.len() + 1,
        j >= 1,
    ensures
        occurrences(s, t) == occurrences_below(s, t, j),
{
    lemma_below_stable(s, t, j, s.len() as int + 1);
}

proof fn lemma_below_stable(s: Seq<char>, t: Seq<char>, j: int, k: int)
    requires
        t.len() > 0,
        j == s.len() - t.len() + 1,
        j <= k,
    ensures
        occurrences_below(s, t, k) == occurrences_below(s, t, j),
    decreases k - j,
{
    if k > j {
        lemma_below_stable(s, t, j, k - 1);
        assert(!occurs_at(s, t, k - 1));
    }
}

proof fn lemma_word_ends_positive(s: Seq<char>)
    ensures
        forall|u: int| 0 <= u < word_ranges(s).len() ==> byte_offset(s, (#[trigger] word_ranges(s)[u]).1) >= 1,
{
    lemma_scan_words(s, s.len() as int);
    assert forall|u: int| 0 <= u < word_ranges(s).len() implies byte_offset(s, (#[trigger] word_ranges(s)[u]).1)
        >= 1 by {
        let r = word_ranges(s)[u];
        assert(0 <= r.0 < r.1 <= s.len());
        lemma_offset_monotone(s, r.0, r.1);
        lemma_offset_bound(s, r.0);
    }
}

} // verus!
