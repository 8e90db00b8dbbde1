//! Colour schemes: a palette of named colours, and UI and syntax colours
//! that name a palette colour, another entry of their own table, or a hex
//! code.
use vstd::prelude::*;
use crate::text_util::{str_eq, str_to_chars, trim_chars, trim_spec};

verus! {

/// A colour by its red, green and blue components.
#[derive(Debug, Clone, Copy, PartialEq, Eq, Structural)]
pub struct Rgb {
    pub r: u8,
    pub g: u8,
    pub b: u8,
}

/// The value of a hexadecimal digit, either case.
pub open spec fn hex_digit(c: char) -> Option<u8> {
    if '0' <= c && c <= '9' {
        Some((c as u32 - 48) as u8)
    } else if 'a' <= c && c <= 'f' {
        Some((c as u32 - 87) as u8)
    } else if 'A' <= c && c <= 'F' {
        Some((c as u32 - 55) as u8)
    } else {
        None
    }
}

/// The byte that the two characters `a b` write in hexadecimal, as
/// `u8::from_str_radix(.., 16)` reads them: two digits, or `+` and a digit.
pub open spec fn hex_pair(a: char, b: char) -> Option<u8> {
    match (hex_digit(a), hex_digit(b)) {
        (Some(x), Some(y)) => Some((16 * x + y) as u8),
        (None, Some(y)) => if a == '+' {
            Some(y)
        } else {
            None
        },
        _ => None,
    }
}

/// `s` without the `#` characters that start it.
pub open spec fn strip_hashes(s: Seq<char>) -> Seq<char>
    decreases s.len(),
{
    if s.len() > 0 && s[0] == '#' {
        strip_hashes(s.drop_first())
    } else {
        s
    }
}

/// Every character is ASCII.
pub open spec fn all_ascii(s: Seq<char>) -> bool {
    forall|i: int| 0 <= i < s.len() ==> (#[trigger] s[i] as u32) < 128
}

/// The colour a hex code writes: white space around it and leading `#`s
/// are ignored; then six digits (two per component) or three (one per
/// component, doubled).
pub open spec fn parse_hex_spec(s: Seq<char>) -> Option<Rgb> {
    let t = strip_hashes(trim_spec(s));
    if !all_ascii(t) {
        None
    } else if t.len() == 6 {
        match (hex_pair(t[0], t[1]), hex_pair(t[2], t[3]), hex_pair(t[4], t[5])) {
            (Some(r), Some(g), Some(b)) => Some(Rgb { r, g, b }),
            _ => None,
        }
    } else if t.len() == 3 {
        match (hex_pair(t[0], t[0]), hex_pair(t[1], t[1]), hex_pair(t[2], t[2])) {
            (Some(r), Some(g), Some(b)) => Some(Rgb { r, g, b }),
            _ => None,
        }
    } else {
        None
    }
}

fn hex_digit_exec(c: char) -> (d: Option<u8>)
    ensures
        d == hex_digit(c),
{
    if '0' <= c && c <= '9' {
        Some(((c as u32) - 48) as u8)
    } else if 'a' <= c && c <= 'f' {
        Some(((c as u32) - 87) as u8)
    } else if 'A' <= c && c <= 'F' {
        Some(((c as u32) - 55) as u8)
    } else {
        None
    }
}

fn hex_pair_exec(a: char, b: char) -> (d: Option<u8>)
    ensures
        d == hex_pair(a, b),
{
    match (hex_digit_exec(a), hex_digit_exec(b)) {
        (Some(x), Some(y)) => Some(16 * x + y),
        (None, Some(y)) => if a == '+' {
            Some(y)
        } else {
            None
        },
        _ => None,
    }
}

/// Parses a hex colour code; see [`parse_hex_spec`]. (A code whose bytes a
/// byte-wise slice would cut inside a character gives `None`.)
pub fn parse_hex_color(hex: &str) -> (c: Option<Rgb>)
    ensures
        c == parse_hex_spec(hex@),
{
    let chars = str_to_chars(hex);
    let trimmed = trim_chars(&chars);
    let n = trimmed.len();
    let mut i: usize = 0;
    proof {
        assert(trimmed@.subrange(0, n as int) =~= trimmed@);
    }
    while i < n && trimmed[i] == '#'
        invariant
            i <= n,
            n == trimmed@.len(),
            strip_hashes(trimmed@) == strip_hashes(trimmed@.subrange(i as int, n as int)),
        decreases n - i,
    {
        proof {
            let u = trimmed@.subrange(i as int, n as int);
            assert(u.drop_first() =~= trimmed@.subrange(i + 1, n as int));
        }
        i = i + 1;
    }
    proof {
        assert(trimmed@.subrange(0, n as int) =~= trimmed@);
    }
    let mut t: Vec<char> = Vec::new();
    let mut j: usize = i;
    let mut ascii = true;
    while j < n
        invariant
            i <= j <= n,
            n == trimmed@.len(),
            t@ == trimmed@.subrange(i as int, j as int),
            ascii == all_ascii(t@),
        decreases n - j,
    {
        let c = trimmed[j];
        let ghost old_t = t@;
        let ghost old_ascii = ascii;
        if (c as u32) >= 128 {
            ascii = false;
        }
        t.push(c);
        j = j + 1;
        proof {
            assert(t@ =~= trimmed@.subrange(i as int, j as int));
            assert(t@ =~= old_t.push(c));
            if old_ascii && (c as u32) < 128 {
                assert forall|k: int| 0 <= k < t@.len() implies (#[trigger] t@[k] as u32) < 128 by {
                    if k < old_t.len() {
                        assert(t@[k] == old_t[k]);
                    }
                }
            } else if !old_ascii {
                let k = choose|k: int| 0 <= k < old_t.len() && !((#[trigger] old_t[k] as u32) < 128);
                assert(t@[k] == old_t[k]);
            } else {
                assert(t@[old_t.len() as int] == c);
            }
        }
    }
    proof {
        let u = trimmed@.subrange(i as int, n as int);
        if u.len() > 0 {
            assert(u[0] != '#');
        }
        assert(strip_hashes(u) == u);
    }
    if !ascii {
        return None;
    }
    if t.len() == 6 {
        match (hex_pair_exec(t[0], t[1]), hex_pair_exec(t[2], t[3]), hex_pair_exec(t[4], t[5])) {
            (Some(r), Some(g), Some(b)) => Some(Rgb { r, g, b }),
            _ => None,
        }
    } else if t.len() == 3 {
        match (hex_pair_exec(t[0], t[0]), hex_pair_exec(t[1], t[1]), hex_pair_exec(t[2], t[2])) {
            (Some(r), Some(g), Some(b)) => Some(Rgb { r, g, b }),
            _ => None,
        }
    } else {
        None
    }
}

// ---------------------------------------------------------------------------
// Tables of named values
// ---------------------------------------------------------------------------

/// The characters of each name and value of a table.
pub open spec fn table_view(m: Seq<(String, String)>) -> Seq<(Seq<char>, Seq<char>)> {
    m.map_values(|e: (String, String)| (e.0@, e.1@))
}

/// The value of the first entry named `k`.
pub open spec fn lookup(m: Seq<(Seq<char>, Seq<char>)>, k: Seq<char>) -> Option<Seq<char>>
    decreases m.len(),
{
    if m.len() == 0 {
        None
    } else if m[0].0 == k {
        Some(m[0].1)
    } else {
        lookup(m.drop_first(), k)
    }
}

fn lookup_exec<'a>(m: &'a Vec<(String, String)>, k: &str) -> (r: Option<&'a String>)
    ensures
        match (r, lookup(table_view(m@), k@)) {
            (Some(v), Some(w)) => v@ == w,
            (None, None) => true,
            _ => false,
        },
{
    let mut i: usize = 0;
    proof {
        assert(table_view(m@).subrange(0, m@.len() as int) =~= table_view(m@));
    }
    while i < m.len()
        invariant
            i <= m@.len(),
            lookup(table_view(m@), k@) == lookup(table_view(m@).subrange(i as int, m@.len() as int), k@),
        decreases m@.len() - i,
    {
        let ghost rest = table_view(m@).subrange(i as int, m@.len() as int);
        proof {
            assert(rest.drop_first() =~= table_view(m@).subrange(i + 1, m@.len() as int));
            assert(rest[0] == (m@[i as int].0@, m@[i as int].1@));
        }
        if str_eq(m[i].0.as_str(), k) {
            return Some(&m[i].1);
        }
        i = i + 1;
    }
    None
}

/// The colour a UI or syntax value stands for, followed at most ten links
/// deep: a palette name gives the palette's colour; a name of the value's
/// own table is followed; anything else is read as a hex code.
pub open spec fn resolve_spec(
    val: Seq<char>,
    palette: Seq<(Seq<char>, Seq<char>)>,
    fallback: Seq<(Seq<char>, Seq<char>)>,
    depth: nat,
) -> Option<Rgb>
    decreases 11 - depth,
{
    if depth > 10 {
        None
    } else {
        match lookup(palette, val) {
            Some(code) => parse_hex_spec(code),
            None => match lookup(fallback, val) {
                Some(next) => resolve_spec(next, palette, fallback, depth + 1),
                None => parse_hex_spec(val),
            },
        }
    }
}

/// Resolves `val`; see [`resolve_spec`].
pub fn resolve_color_recursive(
    val: &str,
    palette: &Vec<(String, String)>,
    fallback_map: &Vec<(String, String)>,
    depth: usize,
) -> (c: Option<Rgb>)
    requires
        depth <= 11,
    ensures
        c == resolve_spec(val@, table_view(palette@), table_view(fallback_map@), depth as nat),
    decreases 11 - depth,
{
    if depth > 10 {
        return None;
    }
    match lookup_exec(palette, val) {
        Some(code) => parse_hex_color(code.as_str()),
        None => match lookup_exec(fallback_map, val) {
            Some(next) => resolve_color_recursive(next.as_str(), palette, fallback_map, depth + 1),
            None => parse_hex_color(val),
        },
    }
}

/// Resolves `val` from the top; see [`resolve_spec`].
pub fn resolve_color(val: &str, palette: &Vec<(String, String)>, fallback_map: &Vec<(String, String)>) -> (c:
    Option<Rgb>)
    ensures
        c == resolve_spec(val@, table_view(palette@), table_view(fallback_map@), 0),
{
    resolve_color_recursive(val, palette, fallback_map, 0)
}

// ---------------------------------------------------------------------------
// Schemes
// ---------------------------------------------------------------------------

/// Who made a scheme and what it is for.
#[derive(Debug)]
pub struct Metadata {
    pub name: String,
    pub description: Option<String>,
    pub author: Option<String>,
    /// `light` or `dark`; written `type` in a scheme file.
    pub scheme_type: Option<String>,
}

/// A scheme as its file writes it: every value is text.
#[derive(Debug)]
pub struct ColorSchemeFile {
    pub metadata: Metadata,
    pub colors: Vec<(String, String)>,
    pub ui: Vec<(String, String)>,
    pub syntax: Vec<(String, String)>,
}

/// A scheme with every value resolved to a colour; values that do not
/// resolve are left out.
#[derive(Debug)]
pub struct ColorScheme {
    pub metadata: Metadata,
    pub colors: Vec<(String, Rgb)>,
    pub ui: Vec<(String, Rgb)>,
    pub syntax: Vec<(String, Rgb)>,
}

/// The characters of each name of a colour table, with its colour.
pub open spec fn colors_view(m: Seq<(String, Rgb)>) -> Seq<(Seq<char>, Rgb)> {
    m.map_values(|e: (String, Rgb)| (e.0@, e.1))
}

/// The palette entries whose value is a hex code, with their colours.
pub open spec fn parse_all(m: Seq<(Seq<char>, Seq<char>)>) -> Seq<(Seq<char>, Rgb)>
    decreases m.len(),
{
    if m.len() == 0 {
        Seq::empty()
    } else {
        let prev = parse_all(m.drop_last());
        match parse_hex_spec(m.last().1) {
            Some(c) => prev.push((m.last().0, c)),
            None => prev,
        }
    }
}

/// The entries of `m` whose value resolves (see [`resolve_spec`], with `m`
/// itself as the table to follow), with their colours.
pub open spec fn resolve_all(m: Seq<(Seq<char>, Seq<char>)>, palette: Seq<(Seq<char>, Seq<char>)>, table: Seq<
    (Seq<char>, Seq<char>),
>) -> Seq<(Seq<char>, Rgb)>
    decreases m.len(),
{
    if m.len() == 0 {
        Seq::empty()
    } else {
        let prev = resolve_all(m.drop_last(), palette, table);
        match resolve_spec(m.last().1, palette, table, 0) {
            Some(c) => prev.push((m.last().0, c)),
            None => prev,
        }
    }
}

fn clone_string(s: &String) -> (r: String)
    ensures
        r@ == s@,
{
    s.clone()
}

fn parse_table(m: &Vec<(String, String)>) -> (r: Vec<(String, Rgb)>)
    ensures
        colors_view(r@) == parse_all(table_view(m@)),
{
    let mut out: Vec<(String, Rgb)> = Vec::new();
    let mut i: usize = 0;
    while i < m.len()
        invariant
            i <= m@.len(),
            colors_view(out@) == parse_all(table_view(m@).subrange(0, i as int)),
        decreases m@.len() - i,
    {
        let ghost before = out@;
        let parsed = parse_hex_color(m[i].1.as_str());
        proof {
            let s = table_view(m@).subrange(0, i + 1);
            assert(s.drop_last() =~= table_view(m@).subrange(0, i as int));
            assert(s.last() == (m@[i as int].0@, m@[i as int].1@));
        }
        match parsed {
            Some(c) => {
                out.push((clone_string(&m[i].0), c));
                proof {
                    assert(colors_view(out@) =~= colors_view(before).push((m@[i as int].0@, c)));
                }
            },
            None => {},
        }
        i = i + 1;
    }
    proof {
        assert(table_view(m@).subrange(0, i as int) =~= table_view(m@));
    }
    out
}

fn resolve_table(m: &Vec<(String, String)>, palette: &Vec<(String, String)>) -> (r: Vec<(String, Rgb)>)
    ensures
        colors_view(r@) == resolve_all(table_view(m@), table_view(palette@), table_view(m@)),
{
    let mut out: Vec<(String, Rgb)> = Vec::new();
    let mut i: usize = 0;
    while i < m.len()
        invariant
            i <= m@.len(),
            colors_view(out@) == resolve_all(table_view(m@).subrange(0, i as int), table_view(palette@), table_view(m@)),
        decreases m@.len() - i,
    {
        let ghost before = out@;
        let resolved = resolve_color(m[i].1.as_str(), palette, m);
        proof {
            let s = table_view(m@).subrange(0, i + 1);
            assert(s.drop_last() =~= table_view(m@).subrange(0, i as int));
            assert(s.last() == (m@[i as int].0@, m@[i as int].1@));
        }
        match resolved {
            Some(c) => {
                out.push((clone_string(&m[i].0), c));
                proof {
                    assert(colors_view(out@) =~= colors_view(before).push((m@[i as int].0@, c)));
                }
            },
            None => {},
        }
        i = i + 1;
    }
    proof {
        assert(table_view(m@).subrange(0, i as int) =~= table_view(m@));
    }
    out
}

impl ColorScheme {
    /// Resolves every value of a scheme file: palette entries are hex codes;
    /// UI and syntax entries resolve through the palette and their own table.
    pub fn from_file(parsed: ColorSchemeFile) -> (s: ColorScheme)
        ensures
            s.metadata == parsed.metadata,
            colors_view(s.colors@) == parse_all(table_view(parsed.colors@)),
            colors_view(s.ui@) == resolve_all(table_view(parsed.ui@), table_view(parsed.colors@), table_view(parsed.ui@)),
            colors_view(s.syntax@) == resolve_all(
                table_view(parsed.syntax@),
                table_view(parsed.colors@),
                table_view(parsed.syntax@),
            ),
    {
        let colors = parse_table(&parsed.colors);
        let ui = resolve_table(&parsed.ui, &parsed.colors);
        let syntax = resolve_table(&parsed.syntax, &parsed.colors);
        ColorScheme { metadata: parsed.metadata, colors, ui, syntax }
    }
}

/// The colour of the first entry named `name`.
pub open spec fn find_color_spec(m: Seq<(Seq<char>, Rgb)>, name: Seq<char>) -> Option<Rgb>
    decreases m.len(),
{
    if m.len() == 0 {
        None
    } else if m[0].0 == name {
        Some(m[0].1)
    } else {
        find_color_spec(m.drop_first(), name)
    }
}

/// Looks a colour up by name in a resolved table.
pub fn find_color(m: &Vec<(String, Rgb)>, name: &str) -> (c: Option<Rgb>)
    ensures
        c == find_color_spec(colors_view(m@), name@),
{
    let mut i: usize = 0;
    proof {
        assert(colors_view(m@).subrange(0, m@.len() as int) =~= colors_view(m@));
    }
    while i < m.len()
        invariant
            i <= m@.len(),
            find_color_spec(colors_view(m@), name@) == find_color_spec(
                colors_view(m@).subrange(i as int, m@.len() as int),
                name@,
            ),
        decreases m@.len() - i,
    {
        let ghost rest = colors_view(m@).subrange(i as int, m@.len() as int);
        proof {
            assert(rest.drop_first() =~= colors_view(m@).subrange(i + 1, m@.len() as int));
            assert(rest[0] == (m@[i as int].0@, m@[i as int].1));
        }
        if str_eq(m[i].0.as_str(), name) {
            return Some(m[i].1);
        }
        i = i + 1;
    }
    None
}

} // verus!
