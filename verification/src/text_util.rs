//! Small conversions between characters, numbers and strings.
use vstd::prelude::*;
use vstd::utf8::is_ascii_chars;
use vstd::string::{StrSliceExecFns, StringExecFns};

verus! {

/// The decimal digit character for `d < 10`.
pub open spec fn digit_char(d: int) -> char {
    (48 + d) as char
}

/// The decimal notation of `n`, without leading zeros.
pub open spec fn decimal_digits(n: nat) -> Seq<char>
    decreases n,
{
    if n < 10 {
        seq![digit_char(n as int)]
    } else {
        decimal_digits(n / 10) + seq![digit_char((n % 10) as int)]
    }
}

/// The decimal notation of a `u32`.
pub open spec fn decimal_spec(n: u32) -> Seq<char> {
    decimal_digits(n as nat)
}

/// The one-digit string for `d < 10`.
fn digit_str(d: u32) -> (s: &'static str)
    requires
        d < 10,
    ensures
        s@ == seq![digit_char(d as int)],
{
    match d {
        0 => {
            proof { reveal_strlit("0"); }
            "0"
        },
        1 => {
            proof { reveal_strlit("1"); }
            "1"
        },
        2 => {
            proof { reveal_strlit("2"); }
            "2"
        },
        3 => {
            proof { reveal_strlit("3"); }
            "3"
        },
        4 => {
            proof { reveal_strlit("4"); }
            "4"
        },
        5 => {
            proof { reveal_strlit("5"); }
            "5"
        },
        6 => {
            proof { reveal_strlit("6"); }
            "6"
        },
        7 => {
            proof { reveal_strlit("7"); }
            "7"
        },
        8 => {
            proof { reveal_strlit("8"); }
            "8"
        },
        _ => {
            proof { reveal_strlit("9"); }
            "9"
        },
    }
}

/// Formats `n` in decimal, as `Display` does for unsigned integers: its
/// digits, without sign, padding or leading zeros.
pub(crate) fn u32_to_decimal(n: u32) -> (s: String)
    ensures
        s@ == decimal_spec(n),
    decreases n,
{
    if n < 10 {
        String::from_str(digit_str(n))
    } else {
        let mut s = u32_to_decimal(n / 10);
        s.append(digit_str(n % 10));
        s
    }
}

/// Formats a `u8` in decimal.
pub(crate) fn u8_to_decimal(n: u8) -> (s: String)
    ensures
        s@ == decimal_digits(n as nat),
{
    u32_to_decimal(n as u32)
}

/// The one-character string holding `c`, made with `ToString` (std's
/// `Display` for `char`). Trusted: that display is the character itself.
#[verifier::external_body]
pub(crate) fn char_to_string(c: char) -> (s: String)
    ensures
        s@ == seq![c],
{
    c.to_string()
}

/// What `str::to_lowercase` returns for a string: the Unicode lowercase mapping
/// of its characters.
pub uninterp spec fn str_lowercase(s: Seq<char>) -> Seq<char>;

/// The lowercase form of a text: the ASCII lower case of each character
/// for ASCII text, and what `str::to_lowercase` gives otherwise.
pub open spec fn lowercase_spec(s: Seq<char>) -> Seq<char> {
    if is_ascii_chars(s) {
        s.map_values(|c: char| to_ascii_lowercase_spec(c))
    } else {
        str_lowercase(s)
    }
}

/// The lowercase form of `s`, from `str::to_lowercase`. Trusted: the result
/// is named by `str_lowercase` of the input's characters, and for ASCII text
/// it is the ASCII lower case of each character (the Unicode lowercase
/// mapping maps `A`..`Z` to `a`..`z` and leaves the other ASCII characters).
#[verifier::external_body]
pub(crate) fn lowercase(s: &str) -> (r: String)
    ensures
        r@ == str_lowercase(s@),
        is_ascii_chars(s@) ==> r@ == s@.map_values(|c: char| to_ascii_lowercase_spec(c)),
{
    s.to_lowercase()
}

/// The characters of a string.
pub fn str_to_chars(s: &str) -> (v: Vec<char>)
    ensures
        v@ == s@,
{
    let n = s.unicode_len();
    let mut v: Vec<char> = Vec::new();
    let mut i: usize = 0;
    while i < n
        invariant
            n == s@.len(),
            i <= n,
            v@ == s@.subrange(0, i as int),
        decreases n - i,
    {
        let c = s.get_char(i);
        v.push(c);
        i = i + 1;
        proof {
            assert(v@ =~= s@.subrange(0, i as int));
        }
    }
    proof {
        assert(v@ =~= s@);
    }
    v
}

/// The string made of the characters `v`.
pub fn chars_to_string(v: &[char]) -> (s: String)
    ensures
        s@ == v@,
{
    let mut s = String::new();
    let mut i: usize = 0;
    while i < v.len()
        invariant
            i <= v@.len(),
            s@ == v@.subrange(0, i as int),
        decreases v@.len() - i,
    {
        let c = char_to_string(v[i]);
        s.append(c.as_str());
        i = i + 1;
        proof {
            assert(s@ =~= v@.subrange(0, i as int));
        }
    }
    proof {
        assert(s@ =~= v@);
    }
    s
}

/// Whether the characters `a` spell the string `b`.
pub fn chars_eq_str(a: &[char], b: &str) -> (r: bool)
    ensures
        r == (a@ == b@),
{
    let n = b.unicode_len();
    if a.len() != n {
        return false;
    }
    let mut i: usize = 0;
    while i < n
        invariant
            n == b@.len(),
            n == a@.len(),
            i <= n,
            forall|j: int| 0 <= j < i ==> a@[j] == b@[j],
        decreases n - i,
    {
        if a[i] != b.get_char(i) {
            return false;
        }
        i = i + 1;
    }
    proof {
        assert(a@ =~= b@);
    }
    true
}

/// Whether the string `a` equals the string `b`.
pub fn str_eq(a: &str, b: &str) -> (r: bool)
    ensures
        r == (a@ == b@),
{
    let v = str_to_chars(a);
    chars_eq_str(v.as_slice(), b)
}

/// ASCII decimal digit.
pub open spec fn is_ascii_digit_spec(c: char) -> bool {
    '0' <= c && c <= '9'
}

/// ASCII letter.
pub open spec fn is_ascii_alphabetic_spec(c: char) -> bool {
    ('a' <= c && c <= 'z') || ('A' <= c && c <= 'Z')
}

/// ASCII upper case of a character; other characters are unchanged.
pub open spec fn to_ascii_uppercase_spec(c: char) -> char {
    if 'a' <= c && c <= 'z' { ((c as u32) - 32) as char } else { c }
}

/// ASCII lower case of a character; other characters are unchanged.
pub open spec fn to_ascii_lowercase_spec(c: char) -> char {
    if 'A' <= c && c <= 'Z' { ((c as u32) + 32) as char } else { c }
}

pub fn is_ascii_digit(c: char) -> (b: bool)
    ensures
        b == is_ascii_digit_spec(c),
{
    '0' <= c && c <= '9'
}

pub fn is_ascii_alphabetic(c: char) -> (b: bool)
    ensures
        b == is_ascii_alphabetic_spec(c),
{
    ('a' <= c && c <= 'z') || ('A' <= c && c <= 'Z')
}

pub fn to_ascii_uppercase(c: char) -> (u: char)
    ensures
        u == to_ascii_uppercase_spec(c),
{
    if 'a' <= c && c <= 'z' {
        let v = (c as u32) - 32;
        char_from_ascii(v)
    } else {
        c
    }
}

pub fn to_ascii_lowercase(c: char) -> (u: char)
    ensures
        u == to_ascii_lowercase_spec(c),
{
    if 'A' <= c && c <= 'Z' {
        let v = (c as u32) + 32;
        char_from_ascii(v)
    } else {
        c
    }
}

/// The character with an ASCII code.
fn char_from_ascii(v: u32) -> (c: char)
    requires
        v < 128,
    ensures
        c == v as char,
{
    (v as u8) as char
}


/// The pieces of `s[start..]` separated by `sep`, as `str::split` yields them,
/// scanning from position `i`.
pub open spec fn split_from(s: Seq<char>, sep: char, i: int, start: int) -> Seq<Seq<char>>
    decreases s.len() - i,
{
    if i >= s.len() {
        seq![s.subrange(start, s.len() as int)]
    } else if s[i] == sep {
        seq![s.subrange(start, i)] + split_from(s, sep, i + 1, i + 1)
    } else {
        split_from(s, sep, i + 1, start)
    }
}

/// The pieces of `s` separated by `sep`.
pub open spec fn split_spec(s: Seq<char>, sep: char) -> Seq<Seq<char>> {
    split_from(s, sep, 0, 0)
}

/// Splitting always gives at least one piece.
pub proof fn lemma_split_from_nonempty(s: Seq<char>, sep: char, i: int, start: int)
    ensures
        split_from(s, sep, i, start).len() >= 1,
    decreases s.len() - i,
{
    if i < s.len() {
        if s[i] == sep {
            lemma_split_from_nonempty(s, sep, i + 1, i + 1);
        } else {
            lemma_split_from_nonempty(s, sep, i + 1, start);
        }
    }
}

/// Splits `s` at every `sep`.
pub fn split_chars(s: &Vec<char>, sep: char) -> (parts: Vec<Vec<char>>)
    ensures
        parts@.len() == split_spec(s@, sep).len(),
        forall|j: int| 0 <= j < parts@.len() ==> #[trigger] parts@[j]@ == split_spec(s@, sep)[j],
{
    let mut parts: Vec<Vec<char>> = Vec::new();
    let mut cur: Vec<char> = Vec::new();
    let mut i: usize = 0;
    let mut start: usize = 0;
    let ghost whole = split_spec(s@, sep);
    while i < s.len()
        invariant
            start <= i <= s@.len(),
            cur@ == s@.subrange(start as int, i as int),
            parts@.len() + split_from(s@, sep, i as int, start as int).len() == whole.len(),
            forall|j: int| 0 <= j < parts@.len() ==> #[trigger] parts@[j]@ == whole[j],
            forall|j: int| 0 <= j < split_from(s@, sep, i as int, start as int).len() ==>
                #[trigger] split_from(s@, sep, i as int, start as int)[j] == whole[parts@.len() + j],
        decreases s@.len() - i,
    {
        let c = s[i];
        if c == sep {
            proof {
                let rest = split_from(s@, sep, i + 1, i + 1);
                assert(split_from(s@, sep, i as int, start as int) =~= seq![s@.subrange(start as int, i as int)] + rest);
                assert forall|j: int| 0 <= j < rest.len() implies #[trigger] rest[j] == whole[parts@.len() + 1 + j] by {
                    assert(split_from(s@, sep, i as int, start as int)[j + 1] == rest[j]);
                }
                assert(split_from(s@, sep, i as int, start as int)[0] == s@.subrange(start as int, i as int));
            }
            parts.push(cur);
            cur = Vec::new();
            i = i + 1;
            start = i;
            proof {
                assert(cur@ =~= s@.subrange(start as int, i as int));
            }
        } else {
            cur.push(c);
            i = i + 1;
            proof {
                assert(cur@ =~= s@.subrange(start as int, i as int));
            }
        }
    }
    proof {
        assert(split_from(s@, sep, i as int, start as int) =~= seq![s@.subrange(start as int, i as int)]);
        assert(split_from(s@, sep, i as int, start as int)[0] == whole[parts@.len() as int]);
    }
    parts.push(cur);
    parts
}


/// Whether `c` has the Unicode `White_Space` property, as `char::is_whitespace`
/// answers: tab, line feed, vertical tab, form feed, carriage return, space,
/// next line, no-break space, ogham space mark, the spaces U+2000 to U+200A,
/// the line and paragraph separators, narrow no-break space, medium
/// mathematical space and ideographic space.
pub open spec fn is_whitespace_spec(c: char) -> bool {
    let v = c as u32;
    (0x9 <= v && v <= 0xd) || v == 0x20 || v == 0x85 || v == 0xa0 || v == 0x1680 || (0x2000 <= v && v <= 0x200a)
        || v == 0x2028 || v == 0x2029 || v == 0x202f || v == 0x205f || v == 0x3000
}

/// Whether `c` is white space; see [`is_whitespace_spec`].
pub fn is_whitespace(c: char) -> (b: bool)
    ensures
        b == is_whitespace_spec(c),
{
    let v = c as u32;
    (0x9 <= v && v <= 0xd) || v == 0x20 || v == 0x85 || v == 0xa0 || v == 0x1680 || (0x2000 <= v && v <= 0x200a)
        || v == 0x2028 || v == 0x2029 || v == 0x202f || v == 0x205f || v == 0x3000
}

/// What `char::is_alphanumeric` answers: the Unicode `Alphabetic` or
/// `Numeric` properties.
pub uninterp spec fn is_alphanumeric_spec(c: char) -> bool;

/// Whether `c` is alphanumeric, from `char::is_alphanumeric`. Trusted: the
/// answer is named by `is_alphanumeric_spec`; nothing more is stated.
#[verifier::external_body]
pub(crate) fn is_alphanumeric(c: char) -> (b: bool)
    ensures
        b == is_alphanumeric_spec(c),
{
    c.is_alphanumeric()
}

/// The number of leading characters of `s` that are white space.
pub open spec fn leading_ws(s: Seq<char>) -> nat
    decreases s.len(),
{
    if s.len() > 0 && is_whitespace_spec(s[0]) {
        1 + leading_ws(s.drop_first())
    } else {
        0
    }
}

/// The number of trailing characters of `s` that are white space.
pub open spec fn trailing_ws(s: Seq<char>) -> nat
    decreases s.len(),
{
    if s.len() > 0 && is_whitespace_spec(s.last()) {
        1 + trailing_ws(s.drop_last())
    } else {
        0
    }
}

/// `s` without leading and trailing white space, as `str::trim` gives it.
pub open spec fn trim_spec(s: Seq<char>) -> Seq<char> {
    let t = s.subrange(leading_ws(s) as int, s.len() as int);
    t.subrange(0, t.len() - trailing_ws(t))
}

proof fn lemma_leading_ws(s: Seq<char>, i: int)
    requires
        0 <= i <= s.len(),
        forall|j: int| 0 <= j < i ==> is_whitespace_spec(#[trigger] s[j]),
    ensures
        leading_ws(s) >= i,
        leading_ws(s) <= s.len(),
        i < s.len() && !is_whitespace_spec(s[i]) ==> leading_ws(s) == i,
        i == s.len() ==> leading_ws(s) == i,
    decreases i,
{
    if i > 0 {
        let d = s.drop_first();
        assert forall|j: int| 0 <= j < i - 1 implies is_whitespace_spec(#[trigger] d[j]) by {
            assert(d[j] == s[j + 1]);
        }
        lemma_leading_ws(d, i - 1);
        if i < s.len() {
            assert(d[i - 1] == s[i]);
        }
    } else {
        lemma_leading_ws_bound(s);
    }
}

proof fn lemma_leading_ws_bound(s: Seq<char>)
    ensures
        leading_ws(s) <= s.len(),
    decreases s.len(),
{
    if s.len() > 0 && is_whitespace_spec(s[0]) {
        lemma_leading_ws_bound(s.drop_first());
    }
}

proof fn lemma_trailing_ws(s: Seq<char>, i: int)
    requires
        0 <= i <= s.len(),
        forall|j: int| s.len() - i <= j < s.len() ==> is_whitespace_spec(#[trigger] s[j]),
    ensures
        trailing_ws(s) >= i,
        trailing_ws(s) <= s.len(),
        i < s.len() && !is_whitespace_spec(s[s.len() - 1 - i]) ==> trailing_ws(s) == i,
        i == s.len() ==> trailing_ws(s) == i,
    decreases i,
{
    if i > 0 {
        let d = s.drop_last();
        assert forall|j: int| d.len() - (i - 1) <= j < d.len() implies is_whitespace_spec(#[trigger] d[j]) by {
            assert(d[j] == s[j]);
        }
        lemma_trailing_ws(d, i - 1);
        if i < s.len() {
            assert(d[d.len() - 1 - (i - 1)] == s[s.len() - 1 - i]);
        }
    } else {
        lemma_trailing_ws_bound(s);
    }
}

proof fn lemma_trailing_ws_bound(s: Seq<char>)
    ensures
        trailing_ws(s) <= s.len(),
    decreases s.len(),
{
    if s.len() > 0 && is_whitespace_spec(s.last()) {
        lemma_trailing_ws_bound(s.drop_last());
    }
}

/// The characters of `s` without leading and trailing white space.
pub fn trim_chars(s: &Vec<char>) -> (r: Vec<char>)
    ensures
        r@ == trim_spec(s@),
{
    let n = s.len();
    let mut i: usize = 0;
    while i < n && is_whitespace(s[i])
        invariant
            i <= n,
            n == s@.len(),
            forall|j: int| 0 <= j < i ==> is_whitespace_spec(#[trigger] s@[j]),
        decreases n - i,
    {
        i = i + 1;
    }
    proof {
        lemma_leading_ws(s@, i as int);
    }
    let ghost t = s@.subrange(i as int, n as int);
    let mut k: usize = 0;
    while k < n - i && is_whitespace(s[n - 1 - k])
        invariant
            i <= n,
            n == s@.len(),
            k <= n - i,
            t == s@.subrange(i as int, n as int),
            forall|j: int| t.len() - k <= j < t.len() ==> is_whitespace_spec(#[trigger] t[j]),
        decreases n - i - k,
    {
        proof {
            assert(t[t.len() - 1 - k] == s@[n - 1 - k]);
        }
        k = k + 1;
    }
    proof {
        if k < n - i {
            assert(t[t.len() - 1 - k] == s@[n - 1 - k]);
        }
        lemma_trailing_ws(t, k as int);
    }
    let mut out: Vec<char> = Vec::new();
    let mut j: usize = i;
    while j < n - k
        invariant
            i <= j <= n - k,
            k <= n - i,
            n == s@.len(),
            out@ == s@.subrange(i as int, j as int),
        decreases n - k - j,
    {
        out.push(s[j]);
        j = j + 1;
        proof {
            assert(out@ =~= s@.subrange(i as int, j as int));
        }
    }
    proof {
        assert(out@ =~= t.subrange(0, t.len() - trailing_ws(t)));
    }
    out
}

} // verus!
