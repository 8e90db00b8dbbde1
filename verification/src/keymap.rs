//! Key combinations, key-sequence patterns, the pending key buffer, and the
//! resolution of typed keys to actions.
use vstd::prelude::*;
use vstd::string::StringExecFns;
use crate::actions::{Action, count_spec, with_char_rel, with_count_spec};
use crate::keys::{KeyCode, KeyEvent, KeyModifiers, no_modifiers};
use crate::text_util::{
    lemma_split_from_nonempty, split_chars, split_from, split_spec, chars_eq_str, chars_to_string, char_to_string, decimal_digits, is_ascii_alphabetic, is_ascii_alphabetic_spec,
    is_ascii_digit, is_ascii_digit_spec, lowercase, lowercase_spec, str_to_chars, to_ascii_uppercase,
    to_ascii_uppercase_spec, to_ascii_lowercase_spec, u8_to_decimal,
};
use vstd::utf8::is_ascii_chars;

verus! {

// ---------------------------------------------------------------------------
// Parsing key names
// ---------------------------------------------------------------------------

/// The key named by a lowercased key name.
pub open spec fn key_name_code(lower: Seq<char>) -> Option<KeyCode> {
    if lower == "esc"@ || lower == "escape"@ {
        Some(KeyCode::Esc)
    } else if lower == "enter"@ || lower == "return"@ {
        Some(KeyCode::Enter)
    } else if lower == "tab"@ {
        Some(KeyCode::Tab)
    } else if lower == "backtab"@ {
        Some(KeyCode::BackTab)
    } else if lower == "backspace"@ {
        Some(KeyCode::Backspace)
    } else if lower == "delete"@ || lower == "del"@ {
        Some(KeyCode::Delete)
    } else if lower == "insert"@ || lower == "ins"@ {
        Some(KeyCode::Insert)
    } else if lower == "left"@ {
        Some(KeyCode::Left)
    } else if lower == "right"@ {
        Some(KeyCode::Right)
    } else if lower == "up"@ {
        Some(KeyCode::Up)
    } else if lower == "down"@ {
        Some(KeyCode::Down)
    } else if lower == "pageup"@ || lower == "pgup"@ {
        Some(KeyCode::PageUp)
    } else if lower == "pagedown"@ || lower == "pgdn"@ {
        Some(KeyCode::PageDown)
    } else if lower == "home"@ {
        Some(KeyCode::Home)
    } else if lower == "end"@ {
        Some(KeyCode::End)
    } else {
        None
    }
}

fn key_name_code_exec(lower: &Vec<char>) -> (c: Option<KeyCode>)
    ensures
        c == key_name_code(lower@),
{
    let l = lower.as_slice();
    if chars_eq_str(l, "esc") || chars_eq_str(l, "escape") {
        Some(KeyCode::Esc)
    } else if chars_eq_str(l, "enter") || chars_eq_str(l, "return") {
        Some(KeyCode::Enter)
    } else if chars_eq_str(l, "tab") {
        Some(KeyCode::Tab)
    } else if chars_eq_str(l, "backtab") {
        Some(KeyCode::BackTab)
    } else if chars_eq_str(l, "backspace") {
        Some(KeyCode::Backspace)
    } else if chars_eq_str(l, "delete") || chars_eq_str(l, "del") {
        Some(KeyCode::Delete)
    } else if chars_eq_str(l, "insert") || chars_eq_str(l, "ins") {
        Some(KeyCode::Insert)
    } else if chars_eq_str(l, "left") {
        Some(KeyCode::Left)
    } else if chars_eq_str(l, "right") {
        Some(KeyCode::Right)
    } else if chars_eq_str(l, "up") {
        Some(KeyCode::Up)
    } else if chars_eq_str(l, "down") {
        Some(KeyCode::Down)
    } else if chars_eq_str(l, "pageup") || chars_eq_str(l, "pgup") {
        Some(KeyCode::PageUp)
    } else if chars_eq_str(l, "pagedown") || chars_eq_str(l, "pgdn") {
        Some(KeyCode::PageDown)
    } else if chars_eq_str(l, "home") {
        Some(KeyCode::Home)
    } else if chars_eq_str(l, "end") {
        Some(KeyCode::End)
    } else {
        None
    }
}

/// The modifier that a lowercased modifier name sets: control, alt or shift.
pub open spec fn add_named_modifier(m: KeyModifiers, lower: Seq<char>) -> Option<KeyModifiers> {
    if lower == "c"@ || lower == "ctrl"@ || lower == "control"@ {
        Some(KeyModifiers { control: true, ..m })
    } else if lower == "m"@ || lower == "alt"@ || lower == "option"@ {
        Some(KeyModifiers { alt: true, ..m })
    } else if lower == "s"@ || lower == "shift"@ {
        Some(KeyModifiers { shift: true, ..m })
    } else {
        None
    }
}

fn add_named_modifier_exec(m: KeyModifiers, lower: &Vec<char>) -> (r: Option<KeyModifiers>)
    ensures
        r == add_named_modifier(m, lower@),
{
    let l = lower.as_slice();
    if chars_eq_str(l, "c") || chars_eq_str(l, "ctrl") || chars_eq_str(l, "control") {
        Some(KeyModifiers { control: true, ..m })
    } else if chars_eq_str(l, "m") || chars_eq_str(l, "alt") || chars_eq_str(l, "option") {
        Some(KeyModifiers { alt: true, ..m })
    } else if chars_eq_str(l, "s") || chars_eq_str(l, "shift") {
        Some(KeyModifiers { shift: true, ..m })
    } else {
        None
    }
}

/// Applies the modifier names `parts[i..len - 1]` to `m`; the first unknown name is an error.
pub open spec fn modifiers_from(parts: Seq<Seq<char>>, i: int, m: KeyModifiers) -> Result<KeyModifiers, Seq<char>>
    decreases parts.len() - 1 - i,
{
    if i >= parts.len() - 1 {
        Ok(m)
    } else {
        match add_named_modifier(m, lowercase_spec(parts[i])) {
            Some(m2) => modifiers_from(parts, i + 1, m2),
            None => Err("Unknown modifier: "@ + parts[i]),
        }
    }
}

/// Shift with a letter is recorded as the upper-case letter without shift.
pub open spec fn normalize_shift(code: KeyCode, m: KeyModifiers) -> KeyCombo {
    if m.shift && code is Char && is_ascii_alphabetic_spec(code->Char_0) {
        KeyCombo { code: KeyCode::Char(to_ascii_uppercase_spec(code->Char_0)), modifiers: KeyModifiers { shift: false, ..m } }
    } else {
        KeyCombo { code, modifiers: m }
    }
}

/// The key combination named by `s`: modifier names and a key name separated by
/// `-` (such as `C-f`, `S-Up`), a key name, or a single character.
pub open spec fn parse_key_combo_spec(s: Seq<char>) -> Result<KeyCombo, Seq<char>> {
    let parts = split_spec(s, '-');
    let last = parts[parts.len() - 1];
    match modifiers_from(parts, 0, no_modifiers()) {
        Err(e) => Err(e),
        Ok(m) => match key_name_code(lowercase_spec(last)) {
            Some(code) => Ok(normalize_shift(code, m)),
            None => if last.len() == 1 {
                Ok(normalize_shift(KeyCode::Char(last[0]), m))
            } else {
                Err("Unknown key code: "@ + last)
            },
        },
    }
}

proof fn lemma_one_char_is_no_key_name(s: Seq<char>)
    requires
        s.len() == 1,
    ensures
        key_name_code(s) is None,
{
    reveal_strlit("esc");
    reveal_strlit("escape");
    reveal_strlit("enter");
    reveal_strlit("return");
    reveal_strlit("tab");
    reveal_strlit("backtab");
    reveal_strlit("backspace");
    reveal_strlit("delete");
    reveal_strlit("del");
    reveal_strlit("insert");
    reveal_strlit("ins");
    reveal_strlit("left");
    reveal_strlit("right");
    reveal_strlit("up");
    reveal_strlit("down");
    reveal_strlit("pageup");
    reveal_strlit("pgup");
    reveal_strlit("pagedown");
    reveal_strlit("pgdn");
    reveal_strlit("home");
    reveal_strlit("end");
}

/// A binding string of one ASCII character other than `-` names the key of
/// that character, with no modifier (an upper-case letter stands for
/// itself, as shift with its lower case would).
pub proof fn law_single_character_key(c: char)
    requires
        c != '-',
        '\0' <= c <= '\u{7f}',
    ensures
        parse_key_combo_spec(seq![c]) == Ok::<KeyCombo, Seq<char>>(
            KeyCombo { code: KeyCode::Char(c), modifiers: no_modifiers() },
        ),
{
    let s = seq![c];
    reveal_with_fuel(split_from, 2);
    assert(split_spec(s, '-') =~= seq![s]) by {
        assert(s.subrange(0, 1) =~= s);
    }
    let low = lowercase_spec(s);
    assert(low.len() == 1);
    lemma_one_char_is_no_key_name(low);
}

/// Splitting after a prefix goes on as splitting the rest alone.
proof fn lemma_split_after_prefix(pre: Seq<char>, r: Seq<char>, sep: char, i: int, start: int)
    requires
        0 <= start <= i <= r.len(),
    ensures
        split_from(pre + r, sep, pre.len() + i, pre.len() + start) == split_from(r, sep, i, start),
    decreases r.len() - i,
{
    let s = pre + r;
    let n = pre.len() as int;
    if i >= r.len() {
        assert(s.subrange(n + start, s.len() as int) =~= r.subrange(start, r.len() as int));
    } else if r[i] == sep {
        assert(s[n + i] == sep);
        assert(s.subrange(n + start, n + i) =~= r.subrange(start, i));
        lemma_split_after_prefix(pre, r, sep, i + 1, i + 1);
    } else {
        assert(s[n + i] == r[i]);
        lemma_split_after_prefix(pre, r, sep, i + 1, start);
    }
}

/// A one-character piece followed by `-` splits off as its own piece.
proof fn lemma_split_modifier(x: char, r: Seq<char>)
    requires
        x != '-',
    ensures
        split_spec(seq![x, '-'] + r, '-') == seq![seq![x]] + split_spec(r, '-'),
{
    let s = seq![x, '-'] + r;
    assert(s[0] == x);
    assert(s[1] == '-');
    assert(s.subrange(0, 1) =~= seq![x]);
    lemma_split_after_prefix(seq![x, '-'], r, '-', 0, 0);
    assert(split_from(s, '-', 1, 0) == seq![seq![x]] + split_from(s, '-', 2, 2));
}

/// Reading modifier names after a first piece goes on as reading them in the rest.
proof fn lemma_modifiers_shift(p: Seq<char>, q: Seq<Seq<char>>, i: int, m: KeyModifiers)
    requires
        0 <= i,
        q.len() >= 1,
    ensures
        modifiers_from(seq![p] + q, i + 1, m) == modifiers_from(q, i, m),
    decreases q.len() - 1 - i,
{
    let parts = seq![p] + q;
    if i < q.len() - 1 {
        assert(parts[i + 1] == q[i]);
        match add_named_modifier(m, lowercase_spec(q[i])) {
            Some(m2) => lemma_modifiers_shift(p, q, i + 1, m2),
            None => {},
        }
    }
}

/// The lower case of a one-letter ASCII name.
proof fn lemma_lower_one(c: char)
    requires
        '\0' <= c <= '\u{7f}',
    ensures
        lowercase_spec(seq![c]) == seq![to_ascii_lowercase_spec(c)],
{
    assert(is_ascii_chars(seq![c]));
    assert(seq![c].map_values(|x: char| to_ascii_lowercase_spec(x)) =~= seq![to_ascii_lowercase_spec(c)]);
}

/// Reading one modifier name, `C`, `M` or `S`, in front of the rest.
proof fn lemma_read_modifier(x: char, q: Seq<Seq<char>>, m: KeyModifiers)
    requires
        x == 'C' || x == 'M' || x == 'S',
        q.len() >= 1,
    ensures
        modifiers_from(seq![seq![x]] + q, 0, m) == modifiers_from(
            q,
            0,
            if x == 'C' {
                KeyModifiers { control: true, ..m }
            } else if x == 'M' {
                KeyModifiers { alt: true, ..m }
            } else {
                KeyModifiers { shift: true, ..m }
            },
        ),
{
    reveal_strlit("c");
    reveal_strlit("ctrl");
    reveal_strlit("control");
    reveal_strlit("m");
    reveal_strlit("alt");
    reveal_strlit("option");
    reveal_strlit("s");
    reveal_strlit("shift");
    let parts = seq![seq![x]] + q;
    assert(parts[0] == seq![x]);
    lemma_lower_one(x);
    let m2 = if x == 'C' {
        KeyModifiers { control: true, ..m }
    } else if x == 'M' {
        KeyModifiers { alt: true, ..m }
    } else {
        KeyModifiers { shift: true, ..m }
    };
    assert("c"@ =~= seq!['c']);
    assert("m"@ =~= seq!['m']);
    assert("s"@ =~= seq!['s']);
    let low = seq![to_ascii_lowercase_spec(x)];
    if x == 'C' {
        assert(low =~= "c"@);
    } else if x == 'M' {
        assert(low =~= "m"@);
        assert(low[0] != "c"@[0] && low.len() != "ctrl"@.len() && low.len() != "control"@.len());
    } else {
        assert(low =~= "s"@);
        assert(low[0] != "c"@[0] && low.len() != "ctrl"@.len() && low.len() != "control"@.len());
        assert(low[0] != "m"@[0] && low.len() != "alt"@.len() && low.len() != "option"@.len());
    }
    assert(add_named_modifier(m, lowercase_spec(parts[0])) == Some(m2));
    lemma_modifiers_shift(seq![x], q, 0, m2);
}

/// The keys other than characters whose printed names the parser reads.
pub open spec fn is_named_key(code: KeyCode) -> bool {
    code is Esc || code is Enter || code is Tab || code is BackTab || code is Backspace || code is Delete || code is Insert || code is Left || code is Right || code is Up || code is Down || code is PageUp || code is PageDown || code is Home || code is End
}

/// A named key's printed name holds no `-`, and the parser reads it back.
proof fn lemma_named_key(code: KeyCode)
    requires
        is_named_key(code),
    ensures
        !code_name(code).contains('-'),
        key_name_code(lowercase_spec(code_name(code))) == Some(code),
{
    reveal_strlit("esc");
    reveal_strlit("escape");
    reveal_strlit("enter");
    reveal_strlit("return");
    reveal_strlit("tab");
    reveal_strlit("backtab");
    reveal_strlit("backspace");
    reveal_strlit("delete");
    reveal_strlit("del");
    reveal_strlit("insert");
    reveal_strlit("ins");
    reveal_strlit("left");
    reveal_strlit("right");
    reveal_strlit("up");
    reveal_strlit("down");
    reveal_strlit("pageup");
    reveal_strlit("pgup");
    reveal_strlit("pagedown");
    reveal_strlit("pgdn");
    reveal_strlit("home");
    reveal_strlit("end");
    let name = code_name(code);
    match code {
        KeyCode::Esc => {
            reveal_strlit("Esc");
            assert(name.map_values(|c: char| to_ascii_lowercase_spec(c)) =~= "esc"@);
            assert(is_ascii_chars(name));
            assert(lowercase_spec(name) == "esc"@);
            assert(key_name_code("esc"@) == Some(KeyCode::Esc));
        },
        KeyCode::Enter => {
            reveal_strlit("Enter");
            assert(name.map_values(|c: char| to_ascii_lowercase_spec(c)) =~= "enter"@);
            assert(is_ascii_chars(name));
            assert(lowercase_spec(name) == "enter"@);
            assert(key_name_code("enter"@) == Some(KeyCode::Enter));
        },
        KeyCode::Tab => {
            reveal_strlit("Tab");
            assert(name.map_values(|c: char| to_ascii_lowercase_spec(c)) =~= "tab"@);
            assert(is_ascii_chars(name));
            assert(lowercase_spec(name) == "tab"@);
            assert("tab"@[0] != "esc"@[0]);
            assert(key_name_code("tab"@) == Some(KeyCode::Tab));
        },
        KeyCode::BackTab => {
            reveal_strlit("BackTab");
            assert(name.map_values(|c: char| to_ascii_lowercase_spec(c)) =~= "backtab"@);
            assert(is_ascii_chars(name));
            assert(lowercase_spec(name) == "backtab"@);
            assert(key_name_code("backtab"@) == Some(KeyCode::BackTab));
        },
        KeyCode::Backspace => {
            reveal_strlit("Backspace");
            assert(name.map_values(|c: char| to_ascii_lowercase_spec(c)) =~= "backspace"@);
            assert(is_ascii_chars(name));
            assert(lowercase_spec(name) == "backspace"@);
            assert(key_name_code("backspace"@) == Some(KeyCode::Backspace));
        },
        KeyCode::Delete => {
            reveal_strlit("Delete");
            assert(name.map_values(|c: char| to_ascii_lowercase_spec(c)) =~= "delete"@);
            assert(is_ascii_chars(name));
            assert(lowercase_spec(name) == "delete"@);
            assert("delete"@[0] != "escape"@[0]);
            assert("delete"@[0] != "return"@[0]);
            assert(key_name_code("delete"@) == Some(KeyCode::Delete));
        },
        KeyCode::Insert => {
            reveal_strlit("Insert");
            assert(name.map_values(|c: char| to_ascii_lowercase_spec(c)) =~= "insert"@);
            assert(is_ascii_chars(name));
            assert(lowercase_spec(name) == "insert"@);
            assert("insert"@[0] != "escape"@[0]);
            assert("insert"@[0] != "return"@[0]);
            assert("insert"@[0] != "delete"@[0]);
            assert(key_name_code("insert"@) == Some(KeyCode::Insert));
        },
        KeyCode::Left => {
            reveal_strlit("Left");
            assert(name.map_values(|c: char| to_ascii_lowercase_spec(c)) =~= "left"@);
            assert(is_ascii_chars(name));
            assert(lowercase_spec(name) == "left"@);
            assert(key_name_code("left"@) == Some(KeyCode::Left));
        },
        KeyCode::Right => {
            reveal_strlit("Right");
            assert(name.map_values(|c: char| to_ascii_lowercase_spec(c)) =~= "right"@);
            assert(is_ascii_chars(name));
            assert(lowercase_spec(name) == "right"@);
            assert("right"@[0] != "enter"@[0]);
            assert(key_name_code("right"@) == Some(KeyCode::Right));
        },
        KeyCode::Up => {
            reveal_strlit("Up");
            assert(name.map_values(|c: char| to_ascii_lowercase_spec(c)) =~= "up"@);
            assert(is_ascii_chars(name));
            assert(lowercase_spec(name) == "up"@);
            assert(key_name_code("up"@) == Some(KeyCode::Up));
        },
        KeyCode::Down => {
            reveal_strlit("Down");
            assert(name.map_values(|c: char| to_ascii_lowercase_spec(c)) =~= "down"@);
            assert(is_ascii_chars(name));
            assert(lowercase_spec(name) == "down"@);
            assert("down"@[0] != "left"@[0]);
            assert(key_name_code("down"@) == Some(KeyCode::Down));
        },
        KeyCode::PageUp => {
            reveal_strlit("PageUp");
            assert(name.map_values(|c: char| to_ascii_lowercase_spec(c)) =~= "pageup"@);
            assert(is_ascii_chars(name));
            assert(lowercase_spec(name) == "pageup"@);
            assert("pageup"@[0] != "escape"@[0]);
            assert("pageup"@[0] != "return"@[0]);
            assert("pageup"@[0] != "delete"@[0]);
            assert("pageup"@[0] != "insert"@[0]);
            assert(key_name_code("pageup"@) == Some(KeyCode::PageUp));
        },
        KeyCode::PageDown => {
            reveal_strlit("PageDown");
            assert(name.map_values(|c: char| to_ascii_lowercase_spec(c)) =~= "pagedown"@);
            assert(is_ascii_chars(name));
            assert(lowercase_spec(name) == "pagedown"@);
            assert(key_name_code("pagedown"@) == Some(KeyCode::PageDown));
        },
        KeyCode::Home => {
            reveal_strlit("Home");
            assert(name.map_values(|c: char| to_ascii_lowercase_spec(c)) =~= "home"@);
            assert(is_ascii_chars(name));
            assert(lowercase_spec(name) == "home"@);
            assert("home"@[0] != "left"@[0]);
            assert("home"@[0] != "down"@[0]);
            assert("home"@[0] != "pgup"@[0]);
            assert("home"@[0] != "pgdn"@[0]);
            assert(key_name_code("home"@) == Some(KeyCode::Home));
        },
        KeyCode::End => {
            reveal_strlit("End");
            assert(name.map_values(|c: char| to_ascii_lowercase_spec(c)) =~= "end"@);
            assert(is_ascii_chars(name));
            assert(lowercase_spec(name) == "end"@);
            assert("end"@[1] != "esc"@[1]);
            assert("end"@[0] != "tab"@[0]);
            assert("end"@[0] != "del"@[0]);
            assert("end"@[0] != "ins"@[0]);
            assert(key_name_code("end"@) == Some(KeyCode::End));
        },
        _ => {},
    }
    assert(is_ascii_chars(name));
}

/// A text without the separator is one piece.
proof fn lemma_split_whole(s: Seq<char>, sep: char, i: int)
    requires
        0 <= i <= s.len(),
        !s.contains(sep),
    ensures
        split_from(s, sep, i, 0) == seq![s],
    decreases s.len() - i,
{
    if i >= s.len() {
        assert(s.subrange(0, s.len() as int) =~= s);
    } else {
        assert(s[i] != sep);
        lemma_split_whole(s, sep, i + 1);
    }
}

/// Printing a key combination and parsing the text gives the combination
/// back, for the named keys the parser knows and for ASCII characters other
/// than `-`, where it holds no modifier that the text does not write and is
/// not shift with a letter (which the parser records as the capital letter).
pub proof fn law_combo_text_round_trip(k: KeyCombo)
    requires
        is_named_key(k.code) || (k.code is Char && k.code->Char_0 != '-' && '\0' <= k.code->Char_0
            <= '\u{7f}' && !(k.modifiers.shift && is_ascii_alphabetic_spec(k.code->Char_0))),
        !k.modifiers.super_key && !k.modifiers.hyper && !k.modifiers.meta,
    ensures
        parse_key_combo_spec(combo_text(k)) == Ok::<KeyCombo, Seq<char>>(k),
{
    let m = k.modifiers;
    reveal_strlit("C-");
    reveal_strlit("M-");
    reveal_strlit("S-");
    let last = code_name(k.code);
    let t3 = (if m.shift { "S-"@ } else { Seq::empty() }) + last;
    let t2 = (if m.alt { "M-"@ } else { Seq::empty() }) + t3;
    let t1 = (if m.control { "C-"@ } else { Seq::empty() }) + t2;
    assert(combo_text(k) =~= t1);
    reveal_with_fuel(split_from, 2);
    if is_named_key(k.code) {
        lemma_named_key(k.code);
    } else {
        assert(last =~= seq![k.code->Char_0]);
    }
    lemma_split_whole(last, '-', 0);
    let p3 = split_spec(t3, '-');
    if m.shift {
        assert("S-"@ =~= seq!['S', '-']);
        lemma_split_modifier('S', last);
    } else {
        assert(t3 =~= last);
    }
    let p2 = split_spec(t2, '-');
    if m.alt {
        assert("M-"@ =~= seq!['M', '-']);
        lemma_split_modifier('M', t3);
    } else {
        assert(t2 =~= t3);
    }
    let p1 = split_spec(t1, '-');
    if m.control {
        assert("C-"@ =~= seq!['C', '-']);
        lemma_split_modifier('C', t2);
    } else {
        assert(t1 =~= t2);
    }
    lemma_split_from_nonempty(t3, '-', 0, 0);
    lemma_split_from_nonempty(t2, '-', 0, 0);
    let m0 = no_modifiers();
    let ma = if m.control { KeyModifiers { control: true, ..m0 } } else { m0 };
    let mb = if m.alt { KeyModifiers { alt: true, ..ma } } else { ma };
    let mc = if m.shift { KeyModifiers { shift: true, ..mb } } else { mb };
    assert(mc == m);
    if m.control {
        lemma_read_modifier('C', p2, m0);
    }
    if m.alt {
        lemma_read_modifier('M', p3, ma);
    }
    if m.shift {
        lemma_read_modifier('S', seq![last], mb);
    }
    assert(modifiers_from(seq![last], 0, mc) == Ok::<KeyModifiers, Seq<char>>(mc));
    assert(modifiers_from(p1, 0, m0) == Ok::<KeyModifiers, Seq<char>>(m));
    assert(p1[p1.len() - 1] == last);
    if !is_named_key(k.code) {
        lemma_lower_one(k.code->Char_0);
        lemma_one_char_is_no_key_name(lowercase_spec(last));
    }
}

/// A message: a fixed prefix followed by the characters `v`.
fn message(prefix: &str, v: &Vec<char>) -> (s: String)
    ensures
        s@ == prefix@ + v@,
{
    let mut s = String::from_str(prefix);
    let tail = chars_to_string(v.as_slice());
    s.append(tail.as_str());
    s
}

/// Parses the characters of a key name; see [`parse_key_combo_spec`].
fn parse_combo_chars(s: &Vec<char>) -> (r: Result<KeyCombo, String>)
    ensures
        match (r, parse_key_combo_spec(s@)) {
            (Ok(c), Ok(c2)) => c == c2,
            (Err(e), Err(e2)) => e@ == e2,
            _ => false,
        },
{
    let parts = split_chars(s, '-');
    let ghost sparts = split_spec(s@, '-');
    proof {
        lemma_split_from_nonempty(s@, '-', 0, 0);
    }
    let n = parts.len();
    let mut m = KeyModifiers::empty();
    let mut i: usize = 0;
    while i < n - 1
        invariant
            n == parts@.len(),
            n == sparts.len(),
            sparts == split_spec(s@, '-'),
            n >= 1,
            i <= n - 1,
            forall|j: int| 0 <= j < parts@.len() ==> #[trigger] parts@[j]@ == sparts[j],
            modifiers_from(sparts, i as int, m) == modifiers_from(sparts, 0, no_modifiers()),
        decreases n - 1 - i,
    {
        let part = chars_to_string(parts[i].as_slice());
        let lower = str_to_chars(lowercase(part.as_str()).as_str());
        match add_named_modifier_exec(m, &lower) {
            Some(m2) => {
                m = m2;
            },
            None => {
                proof {
                    assert(modifiers_from(sparts, i as int, m) == Err::<KeyModifiers, Seq<char>>(
                        "Unknown modifier: "@ + sparts[i as int],
                    ));
                }
                let msg = message("Unknown modifier: ", &parts[i]);
                return Err(msg);
            },
        }
        i = i + 1;
    }
    let last = &parts[n - 1];
    let last_str = chars_to_string(last.as_slice());
    let lower = str_to_chars(lowercase(last_str.as_str()).as_str());
    let code = match key_name_code_exec(&lower) {
        Some(code) => code,
        None => {
            if last.len() == 1 {
                KeyCode::Char(last[0])
            } else {
                return Err(message("Unknown key code: ", last));
            }
        },
    };
    if m.shift {
        if let KeyCode::Char(c) = code {
            if is_ascii_alphabetic(c) {
                return Ok(
                    KeyCombo {
                        code: KeyCode::Char(to_ascii_uppercase(c)),
                        modifiers: KeyModifiers { shift: false, ..m },
                    },
                );
            }
        }
    }
    Ok(KeyCombo { code, modifiers: m })
}

// ---------------------------------------------------------------------------
// Key combinations and patterns
// ---------------------------------------------------------------------------

/// A single key press with its modifiers.
#[derive(Clone, Copy, Debug, PartialEq, Eq, Structural)]
pub struct KeyCombo {
    pub code: KeyCode,
    pub modifiers: KeyModifiers,
}

/// The name of a key other than a character, as the terminal library prints it.
pub open spec fn code_name(code: KeyCode) -> Seq<char> {
    match code {
        KeyCode::Char(c) => seq![c],
        KeyCode::Esc => "Esc"@,
        KeyCode::Enter => "Enter"@,
        KeyCode::Backspace => "Backspace"@,
        KeyCode::Tab => "Tab"@,
        KeyCode::Up => "Up"@,
        KeyCode::Down => "Down"@,
        KeyCode::Left => "Left"@,
        KeyCode::Right => "Right"@,
        KeyCode::PageUp => "PageUp"@,
        KeyCode::PageDown => "PageDown"@,
        KeyCode::Home => "Home"@,
        KeyCode::End => "End"@,
        KeyCode::BackTab => "BackTab"@,
        KeyCode::Delete => "Delete"@,
        KeyCode::Insert => "Insert"@,
        KeyCode::F(n) => "F("@ + decimal_digits(n as nat) + ")"@,
        KeyCode::Null => "Null"@,
        KeyCode::CapsLock => "CapsLock"@,
        KeyCode::ScrollLock => "ScrollLock"@,
        KeyCode::NumLock => "NumLock"@,
        KeyCode::PrintScreen => "PrintScreen"@,
        KeyCode::Pause => "Pause"@,
        KeyCode::Menu => "Menu"@,
        KeyCode::KeypadBegin => "KeypadBegin"@,
    }
}

/// The text of a key combination: `C-`, `M-`, `S-` for control, alt and shift, then the key.
pub open spec fn combo_text(c: KeyCombo) -> Seq<char> {
    (if c.modifiers.control { "C-"@ } else { Seq::empty() }) + (if c.modifiers.alt { "M-"@ } else { Seq::empty() }) + (
    if c.modifiers.shift { "S-"@ } else { Seq::empty() }) + code_name(c.code)
}

impl KeyCombo {
    pub fn new(code: KeyCode, modifiers: KeyModifiers) -> (c: KeyCombo)
        ensures
            c == (KeyCombo { code, modifiers }),
    {
        KeyCombo { code, modifiers }
    }

    /// Parses a key name such as `C-f`, `M-x`, `Esc`, `a` or `S-Up`.
    pub fn parse(s: &str) -> (r: Result<KeyCombo, String>)
        ensures
            match (r, parse_key_combo_spec(s@)) {
                (Ok(c), Ok(c2)) => c == c2,
                (Err(e), Err(e2)) => e@ == e2,
                _ => false,
            },
    {
        let chars = str_to_chars(s);
        parse_combo_chars(&chars)
    }

    /// The text of this combination, such as `C-f` or `Esc`.
    pub fn to_string(&self) -> (s: String)
        ensures
            s@ == combo_text(*self),
    {
        let mut s = String::new();
        if self.modifiers.control {
            s.append("C-");
        }
        if self.modifiers.alt {
            s.append("M-");
        }
        if self.modifiers.shift {
            s.append("S-");
        }
        let name = match self.code {
            KeyCode::Char(c) => char_to_string(c),
            KeyCode::Esc => String::from_str("Esc"),
            KeyCode::Enter => String::from_str("Enter"),
            KeyCode::Backspace => String::from_str("Backspace"),
            KeyCode::Tab => String::from_str("Tab"),
            KeyCode::Up => String::from_str("Up"),
            KeyCode::Down => String::from_str("Down"),
            KeyCode::Left => String::from_str("Left"),
            KeyCode::Right => String::from_str("Right"),
            KeyCode::PageUp => String::from_str("PageUp"),
            KeyCode::PageDown => String::from_str("PageDown"),
            KeyCode::Home => String::from_str("Home"),
            KeyCode::End => String::from_str("End"),
            KeyCode::BackTab => String::from_str("BackTab"),
            KeyCode::Delete => String::from_str("Delete"),
            KeyCode::Insert => String::from_str("Insert"),
            KeyCode::F(n) => {
                let mut f = String::from_str("F(");
                f.append(u8_to_decimal(n).as_str());
                f.append(")");
                f
            },
            KeyCode::Null => String::from_str("Null"),
            KeyCode::CapsLock => String::from_str("CapsLock"),
            KeyCode::ScrollLock => String::from_str("ScrollLock"),
            KeyCode::NumLock => String::from_str("NumLock"),
            KeyCode::PrintScreen => String::from_str("PrintScreen"),
            KeyCode::Pause => String::from_str("Pause"),
            KeyCode::Menu => String::from_str("Menu"),
            KeyCode::KeypadBegin => String::from_str("KeypadBegin"),
        };
        s.append(name.as_str());
        s
    }

    /// Same key and same modifiers.
    pub fn matches(&self, other: &KeyCombo) -> (b: bool)
        ensures
            b == (*self == *other),
    {
        self.code == other.code && self.modifiers == other.modifiers
    }

    /// The combination of a key event; shift with a letter becomes the upper-case letter.
    pub fn from_event(event: &KeyEvent) -> (c: KeyCombo)
        ensures
            c == normalize_shift(event.code, event.modifiers),
    {
        let mut code = event.code;
        let mut modifiers = event.modifiers;
        if modifiers.shift {
            if let KeyCode::Char(c) = code {
                if is_ascii_alphabetic(c) {
                    code = KeyCode::Char(to_ascii_uppercase(c));
                    modifiers.shift = false;
                }
            }
        }
        KeyCombo { code, modifiers }
    }
}

/// One element of a key-sequence pattern: an exact combination, or any character key.
#[derive(Clone, Copy, Debug, PartialEq, Eq, Structural)]
pub enum KeyPattern {
    Exact(KeyCombo),
    AnyChar,
}

/// Whether a pattern element accepts a combination.
pub open spec fn pattern_matches(p: KeyPattern, c: KeyCombo) -> bool {
    match p {
        KeyPattern::Exact(t) => t == c,
        KeyPattern::AnyChar => c.code is Char,
    }
}

impl KeyPattern {
    pub fn matches(&self, combo: &KeyCombo) -> (b: bool)
        ensures
            b == pattern_matches(*self, *combo),
    {
        match self {
            KeyPattern::Exact(target) => target.matches(combo),
            KeyPattern::AnyChar => match combo.code {
                KeyCode::Char(_) => true,
                _ => false,
            },
        }
    }
}

// ---------------------------------------------------------------------------
// Key sequences
// ---------------------------------------------------------------------------

/// Whether `s` ends with the wildcard `{c}`.
pub open spec fn ends_with_wildcard(s: Seq<char>) -> bool {
    s.len() >= 3 && s.subrange(s.len() - 3, s.len() as int) == "{c}"@
}

/// Each character of `s` read as a key name of its own; the first that does
/// not parse is the error.
pub open spec fn parse_each_char_spec(s: Seq<char>) -> Result<Seq<KeyPattern>, Seq<char>>
    decreases s.len(),
{
    if s.len() == 0 {
        Ok(Seq::empty())
    } else {
        match parse_each_char_spec(s.drop_last()) {
            Err(e) => Err(e),
            Ok(p) => match parse_key_combo_spec(seq![s.last()]) {
                Ok(c) => Ok(p.push(KeyPattern::Exact(c))),
                Err(e) => Err(e),
            },
        }
    }
}

/// The patterns named by a binding string: `{c}` is any character; a
/// trailing `{c}` follows the patterns of what precedes it; a string with a
/// `-`, or one that names a single key, is that key; anything else is one
/// key per character.
pub open spec fn parse_sequence_spec(s: Seq<char>) -> Result<Seq<KeyPattern>, Seq<char>>
    decreases s.len(),
{
    if s == "{c}"@ {
        Ok(seq![KeyPattern::AnyChar])
    } else if ends_with_wildcard(s) {
        match parse_sequence_spec(s.subrange(0, s.len() - 3)) {
            Ok(p) => Ok(p.push(KeyPattern::AnyChar)),
            Err(e) => Err(e),
        }
    } else if s.contains('-') || parse_key_combo_spec(s) is Ok {
        match parse_key_combo_spec(s) {
            Ok(c) => Ok(seq![KeyPattern::Exact(c)]),
            Err(e) => Err(e),
        }
    } else {
        parse_each_char_spec(s)
    }
}

proof fn lemma_each_char_error_persists(s: Seq<char>, k: int)
    requires
        0 <= k <= s.len(),
        parse_each_char_spec(s.subrange(0, k)) is Err,
    ensures
        parse_each_char_spec(s) == parse_each_char_spec(s.subrange(0, k)),
    decreases s.len() - k,
{
    if k < s.len() {
        let t = s.subrange(0, k + 1);
        assert(t.drop_last() =~= s.subrange(0, k));
        assert(s.subrange(0, k + 1).subrange(0, k) =~= s.subrange(0, k));
        lemma_each_char_error_persists(s, k + 1);
    } else {
        assert(s.subrange(0, k) =~= s);
    }
}

fn contains_char(s: &Vec<char>, c: char) -> (b: bool)
    ensures
        b == s@.contains(c),
{
    let mut i: usize = 0;
    while i < s.len()
        invariant
            i <= s@.len(),
            forall|j: int| 0 <= j < i ==> s@[j] != c,
        decreases s@.len() - i,
    {
        if s[i] == c {
            return true;
        }
        i = i + 1;
    }
    false
}

fn ends_with_wildcard_exec(s: &Vec<char>) -> (b: bool)
    ensures
        b == ends_with_wildcard(s@),
{
    let n = s.len();
    if n < 3 {
        return false;
    }
    let b = s[n - 3] == '{' && s[n - 2] == 'c' && s[n - 1] == '}';
    proof {
        reveal_strlit("{c}");
        let t = s@.subrange(n - 3, n as int);
        if b {
            assert(t =~= "{c}"@);
        } else if t == "{c}"@ {
            assert(t[0] == s@[n - 3] && t[1] == s@[n - 2] && t[2] == s@[n - 1]);
        }
    }
    b
}

fn parse_each_char(s: &Vec<char>) -> (r: Result<Vec<KeyPattern>, String>)
    ensures
        match (r, parse_each_char_spec(s@)) {
            (Ok(q), Ok(p)) => q@ == p,
            (Err(e), Err(e2)) => e@ == e2,
            _ => false,
        },
{
    let mut items: Vec<KeyPattern> = Vec::new();
    let mut i: usize = 0;
    proof {
        assert(s@.subrange(0, 0) =~= Seq::<char>::empty());
    }
    while i < s.len()
        invariant
            i <= s@.len(),
            parse_each_char_spec(s@.subrange(0, i as int)) == Ok::<Seq<KeyPattern>, Seq<char>>(items@),
        decreases s@.len() - i,
    {
        let mut one: Vec<char> = Vec::new();
        one.push(s[i]);
        proof {
            let t = s@.subrange(0, i + 1);
            assert(t.drop_last() =~= s@.subrange(0, i as int));
            assert(one@ =~= seq![t.last()]);
        }
        match parse_combo_chars(&one) {
            Ok(c) => {
                items.push(KeyPattern::Exact(c));
            },
            Err(e) => {
                proof {
                    lemma_each_char_error_persists(s@, i + 1);
                }
                return Err(e);
            },
        }
        i = i + 1;
    }
    proof {
        assert(s@.subrange(0, s@.len() as int) =~= s@);
    }
    Ok(items)
}

fn parse_sequence_chars(s: &Vec<char>) -> (r: Result<Vec<KeyPattern>, String>)
    ensures
        match (r, parse_sequence_spec(s@)) {
            (Ok(q), Ok(p)) => q@ == p,
            (Err(e), Err(e2)) => e@ == e2,
            _ => false,
        },
    decreases s@.len(),
{
    let wild = ends_with_wildcard_exec(s);
    if wild && s.len() == 3 {
        proof {
            assert(s@ =~= s@.subrange(0, 3));
        }
        let mut items: Vec<KeyPattern> = Vec::new();
        items.push(KeyPattern::AnyChar);
        proof {
            assert(items@ =~= seq![KeyPattern::AnyChar]);
        }
        return Ok(items);
    }
    proof {
        if s@ == "{c}"@ {
            reveal_strlit("{c}");
            assert(s@.subrange(0, 3) =~= s@);
        }
    }
    if wild {
        let n = s.len();
        let mut prefix: Vec<char> = Vec::new();
        let mut i: usize = 0;
        while i < n - 3
            invariant
                n == s@.len(),
                n >= 3,
                i <= n - 3,
                prefix@ == s@.subrange(0, i as int),
            decreases n - 3 - i,
        {
            prefix.push(s[i]);
            i = i + 1;
            proof {
                assert(prefix@ =~= s@.subrange(0, i as int));
            }
        }
        match parse_sequence_chars(&prefix) {
            Ok(mut items) => {
                items.push(KeyPattern::AnyChar);
                Ok(items)
            },
            Err(e) => Err(e),
        }
    } else {
        let dash = contains_char(s, '-');
        let single = parse_combo_chars(s);
        if dash || single.is_ok() {
            match single {
                Ok(c) => {
                    let mut items: Vec<KeyPattern> = Vec::new();
                    items.push(KeyPattern::Exact(c));
                    proof {
                        assert(items@ =~= seq![KeyPattern::Exact(c)]);
                    }
                    Ok(items)
                },
                Err(e) => Err(e),
            }
        } else {
            parse_each_char(s)
        }
    }
}

/// The sequence of patterns that a binding is keyed by.
#[derive(Debug)]
pub struct KeyComboSequence {
    pub items: Vec<KeyPattern>,
}

impl Clone for KeyComboSequence {
    fn clone(&self) -> (c: Self)
        ensures
            c.items@ == self.items@,
    {
        let mut items: Vec<KeyPattern> = Vec::new();
        let mut i: usize = 0;
        while i < self.items.len()
            invariant
                i <= self.items@.len(),
                items@ == self.items@.subrange(0, i as int),
            decreases self.items@.len() - i,
        {
            items.push(self.items[i]);
            i = i + 1;
            proof {
                assert(items@ =~= self.items@.subrange(0, i as int));
            }
        }
        proof {
            assert(items@ =~= self.items@);
        }
        KeyComboSequence { items }
    }
}

impl KeyComboSequence {
    pub fn new() -> (s: KeyComboSequence)
        ensures
            s.items@ == Seq::<KeyPattern>::empty(),
    {
        KeyComboSequence { items: Vec::new() }
    }

    /// The sequence matching exactly these combinations, in order.
    pub fn new_from_combos(combos: Vec<KeyCombo>) -> (s: KeyComboSequence)
        ensures
            s.items@ == combos@.map_values(|c: KeyCombo| KeyPattern::Exact(c)),
    {
        let mut items: Vec<KeyPattern> = Vec::new();
        let mut i: usize = 0;
        while i < combos.len()
            invariant
                i <= combos@.len(),
                items@ == combos@.subrange(0, i as int).map_values(|c: KeyCombo| KeyPattern::Exact(c)),
            decreases combos@.len() - i,
        {
            items.push(KeyPattern::Exact(combos[i]));
            i = i + 1;
            proof {
                assert(items@ =~= combos@.subrange(0, i as int).map_values(|c: KeyCombo| KeyPattern::Exact(c)));
            }
        }
        proof {
            assert(combos@.subrange(0, i as int) =~= combos@);
        }
        KeyComboSequence { items }
    }

    /// Parses a binding string such as `C-f`, `Left`, `f{c}`, `gg` or `dd`;
    /// see [`parse_sequence_spec`].
    pub fn parse_sequence(s: &str) -> (r: Result<KeyComboSequence, String>)
        ensures
            match (r, parse_sequence_spec(s@)) {
                (Ok(q), Ok(p)) => q.items@ == p,
                (Err(e), Err(e2)) => e@ == e2,
                _ => false,
            },
    {
        let chars = str_to_chars(s);
        match parse_sequence_chars(&chars) {
            Ok(items) => Ok(KeyComboSequence { items }),
            Err(e) => Err(e),
        }
    }

    pub fn len(&self) -> (n: usize)
        ensures
            n == self.items@.len(),
    {
        self.items.len()
    }

    pub fn is_empty(&self) -> (b: bool)
        ensures
            b == (self.items@.len() == 0),
    {
        self.items.len() == 0
    }

    /// Whether both sequences hold the same patterns.
    pub fn same_as(&self, other: &KeyComboSequence) -> (b: bool)
        ensures
            b == (self.items@ == other.items@),
    {
        if self.items.len() != other.items.len() {
            return false;
        }
        let mut i: usize = 0;
        while i < self.items.len()
            invariant
                i <= self.items@.len(),
                self.items@.len() == other.items@.len(),
                forall|j: int| 0 <= j < i ==> self.items@[j] == other.items@[j],
            decreases self.items@.len() - i,
        {
            if self.items[i] != other.items[i] {
                return false;
            }
            i = i + 1;
        }
        proof {
            assert(self.items@ =~= other.items@);
        }
        true
    }
}

// ---------------------------------------------------------------------------
// The pending key buffer
// ---------------------------------------------------------------------------

/// Whether the last `pat.len()` combinations of `items` match `pat`
/// element by element; an empty pattern matches nothing.
pub open spec fn ends_with_spec(items: Seq<KeyCombo>, pat: Seq<KeyPattern>) -> bool {
    &&& 0 < pat.len() <= items.len()
    &&& forall|j: int| 0 <= j < pat.len() ==> #[trigger] pattern_matches(pat[j], items[items.len() - pat.len() + j])
}

/// A digit key pressed without modifiers: part of a repeat count.
pub open spec fn is_count_digit(c: KeyCombo) -> bool {
    &&& c.code is Char
    &&& is_ascii_digit_spec(c.code->Char_0)
    &&& c.modifiers == no_modifiers()
}

/// How many count digits end `items`.
pub open spec fn trailing_digits(items: Seq<KeyCombo>) -> nat
    decreases items.len(),
{
    if items.len() > 0 && is_count_digit(items.last()) {
        1 + trailing_digits(items.drop_last())
    } else {
        0
    }
}

/// The number written by the digit keys `ds`, most significant first.
pub open spec fn digits_value(ds: Seq<KeyCombo>) -> nat
    decreases ds.len(),
{
    if ds.len() == 0 {
        0
    } else {
        digits_value(ds.drop_last()) * 10 + (ds.last().code->Char_0 as nat - 48) as nat
    }
}

/// `items` without its trailing count digits.
pub open spec fn without_count(items: Seq<KeyCombo>) -> Seq<KeyCombo> {
    items.subrange(0, items.len() - trailing_digits(items))
}

/// The repeat count that ends `items`: the number its trailing digits write,
/// or 1 where there are none or the number does not fit in a `u32`.
pub open spec fn count_of(items: Seq<KeyCombo>) -> u32 {
    let k = trailing_digits(items);
    let v = digits_value(items.subrange(items.len() - k, items.len() as int));
    if k == 0 || v > u32::MAX {
        1
    } else {
        v as u32
    }
}

proof fn lemma_trailing_digits_bound(items: Seq<KeyCombo>)
    ensures
        trailing_digits(items) <= items.len(),
        forall|j: int| items.len() - trailing_digits(items) <= j < items.len() ==> is_count_digit(#[trigger] items[j]),
    decreases items.len(),
{
    if items.len() > 0 && is_count_digit(items.last()) {
        let d = items.drop_last();
        lemma_trailing_digits_bound(d);
        assert forall|j: int| items.len() - trailing_digits(items) <= j < items.len() implies is_count_digit(
            #[trigger] items[j],
        ) by {
            if j < items.len() - 1 {
                assert(items[j] == d[j]);
            }
        }
    }
}

fn is_count_digit_exec(c: &KeyCombo) -> (b: bool)
    ensures
        b == is_count_digit(*c),
{
    match c.code {
        KeyCode::Char(ch) => is_ascii_digit(ch) && c.modifiers.is_empty(),
        _ => false,
    }
}

/// The keys typed so far that have not yet resolved to an action.
#[derive(Debug)]
pub struct KeyBuffer {
    pub items: Vec<KeyCombo>,
}

impl Clone for KeyBuffer {
    fn clone(&self) -> (c: Self)
        ensures
            c.items@ == self.items@,
    {
        let mut items: Vec<KeyCombo> = Vec::new();
        let mut i: usize = 0;
        while i < self.items.len()
            invariant
                i <= self.items@.len(),
                items@ == self.items@.subrange(0, i as int),
            decreases self.items@.len() - i,
        {
            items.push(self.items[i]);
            i = i + 1;
            proof {
                assert(items@ =~= self.items@.subrange(0, i as int));
            }
        }
        proof {
            assert(items@ =~= self.items@);
        }
        KeyBuffer { items }
    }
}

/// The text of a buffer: the text of each combination, in order.
pub open spec fn buffer_text(items: Seq<KeyCombo>) -> Seq<char>
    decreases items.len(),
{
    if items.len() == 0 {
        Seq::empty()
    } else {
        buffer_text(items.drop_last()) + combo_text(items.last())
    }
}

impl KeyBuffer {
    pub fn new() -> (b: KeyBuffer)
        ensures
            b.items@ == Seq::<KeyCombo>::empty(),
    {
        KeyBuffer { items: Vec::new() }
    }

    pub fn push(&mut self, item: KeyCombo)
        ensures
            final(self).items@ == old(self).items@.push(item),
    {
        self.items.push(item);
    }

    pub fn pop(&mut self) -> (r: Option<KeyCombo>)
        ensures
            old(self).items@.len() == 0 ==> r is None && final(self).items@ == old(self).items@,
            old(self).items@.len() > 0 ==> r == Some(old(self).items@.last())
                && final(self).items@ == old(self).items@.drop_last(),
    {
        self.items.pop()
    }

    pub fn len(&self) -> (n: usize)
        ensures
            n == self.items@.len(),
    {
        self.items.len()
    }

    pub fn is_empty(&self) -> (b: bool)
        ensures
            b == (self.items@.len() == 0),
    {
        self.items.len() == 0
    }

    pub fn clear(&mut self)
        ensures
            final(self).items@ == Seq::<KeyCombo>::empty(),
    {
        self.items.clear();
    }

    /// Drops the last `n` combinations, or all of them where there are fewer.
    pub fn truncate_items(&mut self, n: usize)
        ensures
            n <= old(self).items@.len() ==> final(self).items@ == old(self).items@.subrange(
                0,
                old(self).items@.len() - n,
            ),
            n > old(self).items@.len() ==> final(self).items@ == Seq::<KeyCombo>::empty(),
    {
        if n == 0 {
            proof {
                assert(self.items@.subrange(0, self.items@.len() as int) =~= self.items@);
            }
            return ;
        }
        let new_len = self.items.len().saturating_sub(n);
        self.items.truncate(new_len);
    }

    /// Whether the last combinations match `target` element by element.
    pub fn ends_with_pattern(&self, target: &KeyComboSequence) -> (b: bool)
        ensures
            b == ends_with_spec(self.items@, target.items@),
    {
        let n = self.items.len();
        let m = target.items.len();
        if m == 0 || m > n {
            return false;
        }
        let mut j: usize = 0;
        while j < m
            invariant
                n == self.items@.len(),
                m == target.items@.len(),
                0 < m <= n,
                j <= m,
                forall|i: int| 0 <= i < j ==> #[trigger] pattern_matches(target.items@[i], self.items@[n - m + i]),
            decreases m - j,
        {
            if !target.items[j].matches(&self.items[n - m + j]) {
                return false;
            }
            j = j + 1;
        }
        true
    }

    /// Removes the count digits that end the buffer and returns the count
    /// they write; see [`count_of`].
    pub fn pop_trailing_digits(&mut self) -> (count: u32)
        ensures
            count == count_of(old(self).items@),
            final(self).items@ == without_count(old(self).items@),
    {
        let n = self.items.len();
        let mut k: usize = 0;
        proof {
            assert(self.items@.subrange(0, n as int) =~= self.items@);
        }
        while k < n && is_count_digit_exec(&self.items[n - 1 - k])
            invariant
                n == self.items@.len(),
                k <= n,
                trailing_digits(self.items@) == k + trailing_digits(self.items@.subrange(0, n - k)),
            decreases n - k,
        {
            proof {
                let t = self.items@.subrange(0, n - k);
                assert(t.drop_last() =~= self.items@.subrange(0, n - k - 1));
                assert(t.last() == self.items@[n - 1 - k]);
            }
            k = k + 1;
        }
        proof {
            let t = self.items@.subrange(0, n - k);
            if k == n {
                assert(t.len() == 0);
            } else {
                assert(t.last() == self.items@[n - 1 - k]);
            }
            assert(trailing_digits(t) == 0);
            lemma_trailing_digits_bound(self.items@);
        }
        let start = n - k;
        let ghost ds = self.items@.subrange(start as int, n as int);
        let mut value: u32 = 0;
        let mut overflow = false;
        let mut i: usize = start;
        proof {
            assert(ds.subrange(0, 0) =~= Seq::<KeyCombo>::empty());
        }
        while i < n
            invariant
                n == self.items@.len(),
                start <= i <= n,
                start == n - trailing_digits(self.items@),
                ds == self.items@.subrange(start as int, n as int),
                forall|j: int| start <= j < n ==> is_count_digit(#[trigger] self.items@[j]),
                overflow ==> digits_value(ds.subrange(0, i - start)) > u32::MAX,
                !overflow ==> value == digits_value(ds.subrange(0, i - start)),
            decreases n - i,
        {
            let c = self.items[i];
            let ghost p = ds.subrange(0, i - start + 1);
            proof {
                assert(p.drop_last() =~= ds.subrange(0, i - start));
                assert(p.last() == self.items@[i as int]);
                assert(is_count_digit(self.items@[i as int]));
            }
            if !overflow {
                if let KeyCode::Char(ch) = c.code {
                    let d = (ch as u32) - 48;
                    if value > 429496729 || (value == 429496729 && d > 5) {
                        overflow = true;
                    } else {
                        value = value * 10 + d;
                    }
                }
            }
            i = i + 1;
        }
        proof {
            assert(ds.subrange(0, n - start) =~= ds);
        }
        self.items.truncate(start);
        if k == 0 || overflow {
            1
        } else {
            value
        }
    }

    /// The text of the pending keys, such as `2d` or `C-w`.
    pub fn to_string(&self) -> (s: String)
        ensures
            s@ == buffer_text(self.items@),
    {
        let mut s = String::new();
        let mut i: usize = 0;
        while i < self.items.len()
            invariant
                i <= self.items@.len(),
                s@ == buffer_text(self.items@.subrange(0, i as int)),
            decreases self.items@.len() - i,
        {
            let t = self.items[i].to_string();
            s.append(t.as_str());
            proof {
                let q = self.items@.subrange(0, i + 1);
                assert(q.drop_last() =~= self.items@.subrange(0, i as int));
            }
            i = i + 1;
        }
        proof {
            assert(self.items@.subrange(0, i as int) =~= self.items@);
        }
        s
    }
}

// ---------------------------------------------------------------------------
// Bindings
// ---------------------------------------------------------------------------

/// No two bindings share their patterns.
pub open spec fn distinct_keys(m: Seq<(Seq<KeyPattern>, Action)>) -> bool {
    forall|i: int, j: int| 0 <= i < j < m.len() ==> #[trigger] m[i].0 != #[trigger] m[j].0
}

/// Whether some binding has the patterns `k`.
pub open spec fn has_key(m: Seq<(Seq<KeyPattern>, Action)>, k: Seq<KeyPattern>) -> bool {
    exists|j: int| 0 <= j < m.len() && #[trigger] m[j].0 == k
}

/// `m` with `k` bound to `a`: the binding of `k` is replaced where there is
/// one, else the new binding comes last.
pub open spec fn bind_spec(m: Seq<(Seq<KeyPattern>, Action)>, k: Seq<KeyPattern>, a: Action) -> Seq<
    (Seq<KeyPattern>, Action),
> {
    if has_key(m, k) {
        m.update(choose|j: int| 0 <= j < m.len() && #[trigger] m[j].0 == k, (k, a))
    } else {
        m.push((k, a))
    }
}

/// `m` with the binding string `keys` bound to `a`, or `m` itself where
/// `keys` names no patterns.
pub open spec fn bind_or_keep(m: Seq<(Seq<KeyPattern>, Action)>, keys: Seq<char>, a: Action) -> Seq<
    (Seq<KeyPattern>, Action),
> {
    bind_parsed(m, parse_sequence_spec(keys), a)
}

/// The bindings made from `m` by binding each entry of `list` in order.
pub open spec fn bind_all_spec(m: Seq<(Seq<KeyPattern>, Action)>, list: Seq<(Seq<char>, Action)>) -> Seq<
    (Seq<KeyPattern>, Action),
>
    decreases list.len(),
{
    if list.len() == 0 {
        m
    } else {
        bind_or_keep(bind_all_spec(m, list.drop_last()), list.last().0, list.last().1)
    }
}

/// Keys that name a key sequence: a binding string, or a list of them.
pub trait IntoKeyComboSequence: Sized {
    /// The patterns that the keys name, or the error that parsing them gives.
    spec fn parsed(&self) -> Result<Seq<KeyPattern>, Seq<char>>;

    /// Parses the keys into a key sequence.
    fn into_seq(self) -> (r: Result<KeyComboSequence, String>)
        ensures
            match (r, self.parsed()) {
                (Ok(q), Ok(p)) => q.items@ == p,
                (Err(e), Err(e2)) => e@ == e2,
                _ => false,
            },
    ;
}

impl<'a> IntoKeyComboSequence for &'a str {
    open spec fn parsed(&self) -> Result<Seq<KeyPattern>, Seq<char>> {
        parse_sequence_spec((*self)@)
    }

    fn into_seq(self) -> (r: Result<KeyComboSequence, String>) {
        KeyComboSequence::parse_sequence(self)
    }
}

/// The patterns of the binding strings `keys`, one after another, or the
/// first parse error among them.
pub open spec fn parse_all_spec(keys: Seq<Seq<char>>) -> Result<Seq<KeyPattern>, Seq<char>>
    decreases keys.len(),
{
    if keys.len() == 0 {
        Ok(Seq::empty())
    } else {
        match parse_all_spec(keys.drop_last()) {
            Err(e) => Err(e),
            Ok(p) => match parse_sequence_spec(keys.last()) {
                Err(e) => Err(e),
                Ok(q) => Ok(p + q),
            },
        }
    }
}

impl<'a, 'b> IntoKeyComboSequence for &'a [&'b str] {
    open spec fn parsed(&self) -> Result<Seq<KeyPattern>, Seq<char>> {
        parse_all_spec((*self)@.map_values(|k: &str| k@))
    }

    fn into_seq(self) -> (r: Result<KeyComboSequence, String>) {
        let ghost keys = self@.map_values(|k: &str| k@);
        let n = self.len();
        let mut items: Vec<KeyPattern> = Vec::new();
        let mut i: usize = 0;
        proof {
            assert(keys.take(0) =~= Seq::<Seq<char>>::empty());
        }
        while i < n
            invariant
                n == self@.len(),
                keys == self@.map_values(|k: &str| k@),
                i <= n,
                parse_all_spec(keys.take(i as int)) == Ok::<Seq<KeyPattern>, Seq<char>>(items@),
            decreases n - i,
        {
            let part = KeyComboSequence::parse_sequence(self[i]);
            proof {
                assert(keys.take(i + 1).drop_last() =~= keys.take(i as int));
                assert(keys.take(i + 1).last() == self@[i as int]@);
            }
            match part {
                Ok(seq) => {
                    let m = seq.items.len();
                    let ghost before = items@;
                    let mut j: usize = 0;
                    while j < m
                        invariant
                            m == seq.items@.len(),
                            j <= m,
                            items@ == before + seq.items@.take(j as int),
                        decreases m - j,
                    {
                        items.push(seq.items[j]);
                        j = j + 1;
                        proof {
                            assert(items@ =~= before + seq.items@.take(j as int));
                        }
                    }
                    proof {
                        assert(seq.items@.take(m as int) =~= seq.items@);
                    }
                },
                Err(e) => {
                    proof {
                        lemma_parse_all_error_stays(keys, i as int + 1);
                    }
                    return Err(e);
                },
            }
            i = i + 1;
        }
        proof {
            assert(keys.take(n as int) =~= keys);
        }
        Ok(KeyComboSequence { items })
    }
}

proof fn lemma_parse_all_error_stays(keys: Seq<Seq<char>>, k: int)
    requires
        0 <= k <= keys.len(),
        parse_all_spec(keys.take(k)) is Err,
    ensures
        parse_all_spec(keys) == parse_all_spec(keys.take(k)),
    decreases keys.len() - k,
{
    if k < keys.len() {
        assert(keys.take(k + 1).drop_last() =~= keys.take(k));
        lemma_parse_all_error_stays(keys, k + 1);
    } else {
        assert(keys.take(k) =~= keys);
    }
}

/// `m` with the parsed keys bound to `a`, or `m` itself where the keys do
/// not parse or name no key.
pub open spec fn bind_parsed(
    m: Seq<(Seq<KeyPattern>, Action)>,
    parsed: Result<Seq<KeyPattern>, Seq<char>>,
    a: Action,
) -> Seq<(Seq<KeyPattern>, Action)> {
    match parsed {
        Ok(p) => if p.len() > 0 {
            bind_spec(m, p, a)
        } else {
            m
        },
        Err(_) => m,
    }
}

/// Binding key sequences to actions.
pub trait BindSequence {
    /// The bindings, in the order they were first made.
    spec fn bindings(&self) -> Seq<(Seq<KeyPattern>, Action)>;

    /// Binds the key sequence that `keys` name to `action`, replacing an
    /// earlier binding of the same sequence. Fails with the parse error
    /// where `keys` do not parse, and where they name no key at all.
    fn bind<K: IntoKeyComboSequence>(&mut self, keys: K, action: Action) -> (r: Result<(), String>)
        ensures
            final(self).bindings() == bind_parsed(old(self).bindings(), keys.parsed(), action),
            match keys.parsed() {
                Err(e) => r is Err && r->Err_0@ == e,
                Ok(p) => if p.len() == 0 {
                    r is Err && r->Err_0@ == "Failed to parse key combo sequence"@
                } else {
                    r is Ok
                },
            },
    ;
}

impl BindSequence for KeyBindings {
    open spec fn bindings(&self) -> Seq<(Seq<KeyPattern>, Action)> {
        self@
    }

    fn bind<K: IntoKeyComboSequence>(&mut self, keys: K, action: Action) -> (r: Result<(), String>) {
        proof {
            use_type_invariant(&*self);
        }
        let ghost parsed = keys.parsed();
        let seq = match keys.into_seq() {
            Ok(q) => q,
            Err(e) => return Err(e),
        };
        if seq.is_empty() {
            return Err(String::from_str("Failed to parse key combo sequence"));
        }
        let ghost old_view = self@;
        let n = self.entries.len();
        let mut i: usize = 0;
        while i < n
            invariant
                n == self.entries@.len(),
                n == old_view.len(),
                old_view == self@,
                old_view == old(self)@,
                parsed == Ok::<Seq<KeyPattern>, Seq<char>>(seq.items@),
                parsed == keys.parsed(),
                seq.items@.len() > 0,
                distinct_keys(old_view),
                i <= n,
                forall|j: int| 0 <= j < i ==> old_view[j].0 != seq.items@,
            decreases n - i,
        {
            if self.entries[i].0.same_as(&seq) {
                proof {
                    assert(old_view[i as int].0 == seq.items@);
                    assert(has_key(old_view, seq.items@));
                    let c = choose|j: int| 0 <= j < old_view.len() && #[trigger] old_view[j].0 == seq.items@;
                    assert(c == i);
                }
                let mut entries = Vec::new();
                std::mem::swap(&mut entries, &mut self.entries);
                let ghost before = entries@;
                entries.set(i, (seq, action));
                proof {
                    let v = entries@.map_values(|e: (KeyComboSequence, Action)| (e.0.items@, e.1));
                    assert(v =~= old_view.update(i as int, (old_view[i as int].0, action)));
                    assert forall|a: int, b: int| 0 <= a < b < v.len() implies #[trigger] v[a].0 != #[trigger] v[b].0 by {
                        assert(old_view[a].0 != old_view[b].0);
                    }
                }
                self.entries = entries;
                return Ok(());
            }
            i = i + 1;
        }
        let mut entries = Vec::new();
        std::mem::swap(&mut entries, &mut self.entries);
        let ghost k = seq.items@;
        entries.push((seq, action));
        proof {
            let v = entries@.map_values(|e: (KeyComboSequence, Action)| (e.0.items@, e.1));
            assert(v =~= old_view.push((k, action)));
            assert(!has_key(old_view, k));
            assert forall|a: int, b: int| 0 <= a < b < v.len() implies #[trigger] v[a].0 != #[trigger] v[b].0 by {
                if b < old_view.len() {
                    assert(old_view[a].0 != old_view[b].0);
                } else {
                    assert(old_view[a].0 != k);
                }
            }
        }
        self.entries = entries;
        Ok(())
    }
}

/// A table from key sequences to actions, kept in the order the bindings
/// were first made.
#[derive(Debug)]
pub struct KeyBindings {
    entries: Vec<(KeyComboSequence, Action)>,
}

impl View for KeyBindings {
    type V = Seq<(Seq<KeyPattern>, Action)>;

    closed spec fn view(&self) -> Seq<(Seq<KeyPattern>, Action)> {
        self.entries@.map_values(|e: (KeyComboSequence, Action)| (e.0.items@, e.1))
    }
}

impl KeyBindings {
    #[verifier::type_invariant]
    spec fn keys_distinct(&self) -> bool {
        distinct_keys(self@)
    }

    pub fn new() -> (m: KeyBindings)
        ensures
            m@ == Seq::<(Seq<KeyPattern>, Action)>::empty(),
    {
        let m = KeyBindings { entries: Vec::new() };
        proof {
            assert(m@ =~= Seq::<(Seq<KeyPattern>, Action)>::empty());
        }
        m
    }

    pub fn len(&self) -> (n: usize)
        ensures
            n == self@.len(),
    {
        self.entries.len()
    }

    /// The patterns of the `i`-th binding.
    pub fn key_at(&self, i: usize) -> (k: &KeyComboSequence)
        requires
            i < self@.len(),
        ensures
            k.items@ == self@[i as int].0,
    {
        &self.entries[i].0
    }

    /// The action of the `i`-th binding.
    pub fn action_at(&self, i: usize) -> (a: &Action)
        requires
            i < self@.len(),
        ensures
            *a == self@[i as int].1,
    {
        &self.entries[i].1
    }

}

// ---------------------------------------------------------------------------
// Resolving the buffer
// ---------------------------------------------------------------------------

/// A lone `0` binding does not apply right after a digit 1-9: there the `0`
/// continues a count such as `10`.
pub open spec fn zero_continues_count(items: Seq<KeyCombo>, k: Seq<KeyPattern>) -> bool {
    &&& k.len() == 1
    &&& k[0] is Exact
    &&& k[0]->Exact_0.code == KeyCode::Char('0')
    &&& k[0]->Exact_0.modifiers == no_modifiers()
    &&& items.len() >= 2
    &&& items[items.len() - 2].code is Char
    &&& is_ascii_digit_spec(items[items.len() - 2].code->Char_0)
    &&& items[items.len() - 2].code->Char_0 != '0'
}

/// Whether a binding with patterns `k` applies to the buffer `items`.
pub open spec fn eligible(items: Seq<KeyCombo>, k: Seq<KeyPattern>) -> bool {
    ends_with_spec(items, k) && !zero_continues_count(items, k)
}

/// The index among the first `i` bindings of the first applicable binding
/// with the most patterns, or -1 where none applies.
pub open spec fn best_from(items: Seq<KeyCombo>, m: Seq<(Seq<KeyPattern>, Action)>, i: int) -> int
    decreases i,
{
    if i <= 0 {
        -1
    } else {
        let b = best_from(items, m, i - 1);
        if eligible(items, m[i - 1].0) && (b < 0 || m[i - 1].0.len() > m[b].0.len()) {
            i - 1
        } else {
            b
        }
    }
}

/// The binding that the buffer resolves to, or -1.
pub open spec fn best_binding(items: Seq<KeyCombo>, m: Seq<(Seq<KeyPattern>, Action)>) -> int {
    best_from(items, m, m.len() as int)
}

/// The buffer left once it has resolved: the matched keys and the count
/// before them are gone; an unresolved buffer stays as it is.
pub open spec fn resolved_buffer(items: Seq<KeyCombo>, m: Seq<(Seq<KeyPattern>, Action)>) -> Seq<KeyCombo> {
    let b = best_binding(items, m);
    if b < 0 {
        items
    } else {
        without_count(items.subrange(0, items.len() - m[b].0.len()))
    }
}

/// `r` is the action the buffer resolves to: `NoOp` where no binding
/// applies; else the bound action, given the count typed before the keys
/// and, for a binding with a wildcard, the last key's character.
pub open spec fn resolves_to(items: Seq<KeyCombo>, m: Seq<(Seq<KeyPattern>, Action)>, r: Action) -> bool {
    let b = best_binding(items, m);
    if b < 0 {
        r == Action::NoOp
    } else {
        let k = m[b].0;
        let a = m[b].1;
        let count = count_of(items.subrange(0, items.len() - k.len()));
        if k.contains(KeyPattern::AnyChar) {
            if items.last().code is Char {
                with_char_rel(a, items.last().code->Char_0, count, r)
            } else {
                r == Action::NoOp
            }
        } else {
            r == with_count_spec(a, count)
        }
    }
}

proof fn lemma_best_from(items: Seq<KeyCombo>, m: Seq<(Seq<KeyPattern>, Action)>, i: int)
    requires
        0 <= i <= m.len(),
    ensures
        -1 <= best_from(items, m, i) < i,
        best_from(items, m, i) == -1 <==> (forall|j: int| 0 <= j < i ==> !#[trigger] eligible(items, m[j].0)),
        best_from(items, m, i) >= 0 ==> eligible(items, m[best_from(items, m, i)].0),
        best_from(items, m, i) >= 0 ==> (forall|j: int|
            0 <= j < i && #[trigger] eligible(items, m[j].0) ==> m[j].0.len() <= m[best_from(items, m, i)].0.len()),
        best_from(items, m, i) >= 0 ==> (forall|j: int|
            0 <= j < best_from(items, m, i) && #[trigger] eligible(items, m[j].0) ==> m[j].0.len() < m[best_from(
                items,
                m,
                i,
            )].0.len()),
    decreases i,
{
    if i > 0 {
        lemma_best_from(items, m, i - 1);
    }
}

/// The longest match wins: the binding a buffer resolves to applies to it,
/// no applicable binding has more keys, and every applicable binding made
/// before it has fewer; the buffer resolves to nothing only where no
/// binding applies.
pub proof fn law_longest_binding_wins(items: Seq<KeyCombo>, m: Seq<(Seq<KeyPattern>, Action)>)
    ensures
        best_binding(items, m) == -1 <==> (forall|j: int| 0 <= j < m.len() ==> !#[trigger] eligible(items, m[j].0)),
        best_binding(items, m) >= 0 ==> {
            let b = best_binding(items, m);
            &&& b < m.len()
            &&& eligible(items, m[b].0)
            &&& forall|j: int| 0 <= j < m.len() && #[trigger] eligible(items, m[j].0) ==> m[j].0.len() <= m[b].0.len()
            &&& forall|j: int| 0 <= j < b && #[trigger] eligible(items, m[j].0) ==> m[j].0.len() < m[b].0.len()
        },
{
    lemma_best_from(items, m, m.len() as int);
}

fn zero_continues_count_exec(items: &Vec<KeyCombo>, key: &KeyComboSequence) -> (b: bool)
    ensures
        b == zero_continues_count(items@, key.items@),
{
    if key.items.len() != 1 {
        return false;
    }
    match key.items[0] {
        KeyPattern::Exact(combo) => {
            if combo.code == KeyCode::Char('0') && combo.modifiers.is_empty() {
                let n = items.len();
                if n >= 2 {
                    match items[n - 2].code {
                        KeyCode::Char(p) => is_ascii_digit(p) && p != '0',
                        _ => false,
                    }
                } else {
                    false
                }
            } else {
                false
            }
        },
        KeyPattern::AnyChar => false,
    }
}

fn has_wildcard(key: &KeyComboSequence) -> (b: bool)
    ensures
        b == key.items@.contains(KeyPattern::AnyChar),
{
    let mut i: usize = 0;
    while i < key.items.len()
        invariant
            i <= key.items@.len(),
            forall|j: int| 0 <= j < i ==> key.items@[j] != KeyPattern::AnyChar,
        decreases key.items@.len() - i,
    {
        match key.items[i] {
            KeyPattern::AnyChar => {
                return true;
            },
            _ => {},
        }
        i = i + 1;
    }
    false
}

impl KeyBindings {
    /// The index of the binding that `items` resolves to; see [`best_binding`].
    pub fn best_match(&self, items: &Vec<KeyCombo>) -> (b: Option<usize>)
        ensures
            match b {
                Some(i) => i as int == best_binding(items@, self@),
                None => best_binding(items@, self@) == -1,
            },
    {
        let buffer = KeyBuffer { items: items.clone() };
        proof {
            assert(buffer.items@ =~= items@);
        }
        let n = self.entries.len();
        let mut best: Option<usize> = None;
        let mut i: usize = 0;
        while i < n
            invariant
                n == self@.len(),
                i <= n,
                buffer.items@ == items@,
                match best {
                    Some(j) => j as int == best_from(items@, self@, i as int),
                    None => best_from(items@, self@, i as int) == -1,
                },
            decreases n - i,
        {
            let key = &self.entries[i].0;
            proof {
                assert(key.items@ == self@[i as int].0);
                lemma_best_from(items@, self@, i as int);
            }
            if buffer.ends_with_pattern(key) && !zero_continues_count_exec(items, key) {
                match best {
                    Some(j) => {
                        if key.len() > self.entries[j].0.len() {
                            best = Some(i);
                        }
                    },
                    None => {
                        best = Some(i);
                    },
                }
            }
            i = i + 1;
        }
        best
    }
}

/// The count that ends the buffer, without changing it; see [`count_of`].
pub fn peek_count(seq: &KeyBuffer) -> (count: u32)
    ensures
        count == count_of(seq.items@),
{
    let mut s = seq.clone();
    resolve_count(&mut s)
}

/// Removes the count that ends the buffer and returns it; see [`count_of`].
pub fn resolve_count(seq: &mut KeyBuffer) -> (count: u32)
    ensures
        count == count_of(old(seq).items@),
        final(seq).items@ == without_count(old(seq).items@),
{
    seq.pop_trailing_digits()
}

/// The action the buffer would resolve to, without changing it.
pub fn peek_action(seq: &KeyBuffer, map: &KeyBindings) -> (r: Action)
    ensures
        resolves_to(seq.items@, map@, r),
{
    let mut s = seq.clone();
    resolve_action(&mut s, map)
}

/// Resolves the buffer against the bindings: the applicable binding with
/// the most keys wins (the first made, among equals), its keys and the count
/// typed before them leave the buffer, and its action is returned with that
/// count; see [`resolves_to`] and [`resolved_buffer`].
pub fn resolve_action(seq: &mut KeyBuffer, map: &KeyBindings) -> (r: Action)
    ensures
        resolves_to(old(seq).items@, map@, r),
        final(seq).items@ == resolved_buffer(old(seq).items@, map@),
{
    let ghost items = seq.items@;
    match map.best_match(&seq.items) {
        None => Action::NoOp,
        Some(b) => {
            proof {
                lemma_best_from(items, map@, map@.len() as int);
            }
            let key = map.key_at(b);
            let action = map.action_at(b).clone();
            let wild = has_wildcard(key);
            let last = seq.items[seq.items.len() - 1];
            seq.truncate_items(key.len());
            let count = resolve_count(seq);
            if wild {
                match last.code {
                    KeyCode::Char(ch) => action.with_char(ch, count),
                    _ => Action::NoOp,
                }
            } else {
                action.with_count(count)
            }
        },
    }
}

/// An operator applied to a motion: delete, change and yank become their
/// motion forms with the operator's count; anything else is `NoOp`.
pub open spec fn op_motion_spec(motion: Action, action: Action) -> Action {
    match action {
        Action::Delete { count } => Action::DeleteMotion { count, motion: Box::new(motion) },
        Action::Change { count } => Action::ChangeMotion { count, motion: Box::new(motion) },
        Action::Yank { count } => Action::YankMotion { count, motion: Box::new(motion) },
        _ => Action::NoOp,
    }
}

/// Combines an operator with the motion it applies to; see [`op_motion_spec`].
pub fn resolve_op_motion_action(motion: Action, action: Action) -> (r: Action)
    ensures
        r == op_motion_spec(motion, action),
{
    let count = action.count();
    match action {
        Action::Delete { .. } => Action::DeleteMotion { count, motion: Box::new(motion) },
        Action::Change { .. } => Action::ChangeMotion { count, motion: Box::new(motion) },
        Action::Yank { .. } => Action::YankMotion { count, motion: Box::new(motion) },
        _ => Action::NoOp,
    }
}

/// Whether the buffer resolves to `NoOp` against `m`: no binding applies,
/// or the one that does gives nothing for these keys.
pub open spec fn resolves_to_noop(items: Seq<KeyCombo>, m: Seq<(Seq<KeyPattern>, Action)>) -> bool {
    let b = best_binding(items, m);
    if b < 0 {
        true
    } else {
        let k = m[b].0;
        let a = m[b].1;
        if k.contains(KeyPattern::AnyChar) {
            !(items.last().code is Char) || !(a is MoveToNextCharacter || a is MoveToPreviousCharacter
                || a is InsertText)
        } else {
            a is NoOp
        }
    }
}

/// A resolution gives `NoOp` exactly where [`resolves_to_noop`] says so.
pub proof fn lemma_resolves_to_noop(items: Seq<KeyCombo>, m: Seq<(Seq<KeyPattern>, Action)>, r: Action)
    requires
        resolves_to(items, m, r),
    ensures
        r is NoOp <==> resolves_to_noop(items, m),
{
}

// ---------------------------------------------------------------------------
// The default keymap
// ---------------------------------------------------------------------------

/// The binding strings and actions of a list of `(&str, Action)` pairs.
pub open spec fn list_view(v: Seq<(&str, Action)>) -> Seq<(Seq<char>, Action)> {
    v.map_values(|e: (&str, Action)| (e.0@, e.1))
}

/// Binds every `(keys, action)` of `list` in order into a new table;
/// entries whose keys do not parse are left out.
pub fn bind_list(list: &Vec<(&str, Action)>) -> (m: KeyBindings)
    ensures
        m@ == bind_all_spec(Seq::empty(), list_view(list@)),
{
    let mut m = KeyBindings::new();
    let mut i: usize = 0;
    while i < list.len()
        invariant
            i <= list@.len(),
            m@ == bind_all_spec(Seq::empty(), list_view(list@).take(i as int)),
        decreases list@.len() - i,
    {
        let keys = list[i].0;
        let action = list[i].1.clone();
        let _ = m.bind(keys, action);
        proof {
            let t = list_view(list@).take(i + 1);
            assert(t.drop_last() =~= list_view(list@).take(i as int));
            assert(t.last() == (keys@, action));
        }
        i = i + 1;
    }
    proof {
        assert(list_view(list@).take(i as int) =~= list_view(list@));
    }
    m
}

/// The default bindings for operators, in the order they are made.
pub open spec fn default_op_bindings() -> Seq<(Seq<char>, Action)> {
    seq![
        ("d"@, Action::Delete { count: 1 }),
        ("c"@, Action::Change { count: 1 }),
        ("y"@, Action::Yank { count: 1 }),
    ]
}

fn default_op_list() -> (v: Vec<(&'static str, Action)>)
    ensures
        list_view(v@) == default_op_bindings(),
{
    let mut v: Vec<(&'static str, Action)> = Vec::new();
    v.push(("d", Action::Delete { count: 1 }));
    v.push(("c", Action::Change { count: 1 }));
    v.push(("y", Action::Yank { count: 1 }));
    proof {
        assert(list_view(v@) =~= default_op_bindings());
    }
    v
}

/// The default bindings for motions, in the order they are made.
pub open spec fn default_motion_bindings() -> Seq<(Seq<char>, Action)> {
    seq![
        ("w"@, Action::MoveToWord { count: 1, select: false }),
        ("e"@, Action::MoveToWordEnd { count: 1, select: false }),
        ("b"@, Action::MoveToPreviousWord { count: 1, select: false }),
        ("ge"@, Action::MoveToPreviousWordEnd { count: 1, select: false }),
        ("W"@, Action::MoveToBigWord { count: 1, select: false }),
        ("B"@, Action::MoveToPreviousBigWord { count: 1, select: false }),
        ("E"@, Action::MoveToBigWordEnd { count: 1, select: false }),
        ("h"@, Action::MoveLeft { count: 1, select: false }),
        ("l"@, Action::MoveRight { count: 1, select: false }),
        ("k"@, Action::MoveUp { count: 1, select: false }),
        ("j"@, Action::MoveDown { count: 1, select: false }),
        ("Left"@, Action::MoveLeft { count: 1, select: false }),
        ("Right"@, Action::MoveRight { count: 1, select: false }),
        ("Up"@, Action::MoveUp { count: 1, select: false }),
        ("Down"@, Action::MoveDown { count: 1, select: false }),
        ("gg"@, Action::MoveToStartOfDocument { count: 1, select: false }),
        ("G"@, Action::MoveToEndOfDocument { count: 1, select: false }),
        ("0"@, Action::MoveToStartOfLine { count: 1, select: false }),
        ("^"@, Action::MoveToStartOfLineNonSpace { count: 1, select: false }),
        ("$"@, Action::MoveToEndOfLine { count: 1, select: false }),
        ("+"@, Action::MoveToStartOfNextLine { count: 1, select: false }),
        ("g+"@, Action::MoveToEndOfNextLine { count: 1, select: false }),
        ("H"@, Action::MoveToScreenTop { count: 1, select: false }),
        ("M"@, Action::MoveToScreenMiddle { count: 1, select: false }),
        ("L"@, Action::MoveToScreenBottom { count: 1, select: false }),
        ("{"@, Action::MoveToPreviousParagraph { count: 1, select: false }),
        ("}"@, Action::MoveToNextParagraph { count: 1, select: false }),
        ("("@, Action::MoveToPreviousSentence { count: 1, select: false }),
        (")"@, Action::MoveToNextSentence { count: 1, select: false }),
        ("f{c}"@, Action::MoveToNextCharacter { count: 1, select: false, ch: '?' }),
        ("F{c}"@, Action::MoveToPreviousCharacter { count: 1, select: false, ch: '?' }),
        ("C-f"@, Action::ScrollForward { count: 1 }),
        ("C-b"@, Action::ScrollBackward { count: 1 }),
        ("C-d"@, Action::ScrollHalfPageDown { count: 1 }),
        ("C-u"@, Action::ScrollHalfPageUp { count: 1 }),
        ("C-e"@, Action::ScrollLineDown { count: 1 }),
        ("C-y"@, Action::ScrollLineUp { count: 1 }),
        ("|"@, Action::MoveToColumn { count: 1 }),
        ("/"@, Action::SearchForward { count: 1 }),
        ("?"@, Action::SearchBackward { count: 1 }),
        ("n"@, Action::SearchNext { count: 1 }),
        ("N"@, Action::SearchPrevious { count: 1 }),
        ("End"@, Action::MoveToEndOfLine { count: 1, select: false }),
        ("Home"@, Action::MoveToStartOfLine { count: 1, select: false }),
    ]
}

fn default_motion_list() -> (v: Vec<(&'static str, Action)>)
    ensures
        list_view(v@) == default_motion_bindings(),
{
    let mut v: Vec<(&'static str, Action)> = Vec::new();
    v.push(("w", Action::MoveToWord { count: 1, select: false }));
    v.push(("e", Action::MoveToWordEnd { count: 1, select: false }));
    v.push(("b", Action::MoveToPreviousWord { count: 1, select: false }));
    v.push(("ge", Action::MoveToPreviousWordEnd { count: 1, select: false }));
    v.push(("W", Action::MoveToBigWord { count: 1, select: false }));
    v.push(("B", Action::MoveToPreviousBigWord { count: 1, select: false }));
    v.push(("E", Action::MoveToBigWordEnd { count: 1, select: false }));
    v.push(("h", Action::MoveLeft { count: 1, select: false }));
    v.push(("l", Action::MoveRight { count: 1, select: false }));
    v.push(("k", Action::MoveUp { count: 1, select: false }));
    v.push(("j", Action::MoveDown { count: 1, select: false }));
    v.push(("Left", Action::MoveLeft { count: 1, select: false }));
    v.push(("Right", Action::MoveRight { count: 1, select: false }));
    v.push(("Up", Action::MoveUp { count: 1, select: false }));
    v.push(("Down", Action::MoveDown { count: 1, select: false }));
    v.push(("gg", Action::MoveToStartOfDocument { count: 1, select: false }));
    v.push(("G", Action::MoveToEndOfDocument { count: 1, select: false }));
    v.push(("0", Action::MoveToStartOfLine { count: 1, select: false }));
    v.push(("^", Action::MoveToStartOfLineNonSpace { count: 1, select: false }));
    v.push(("$", Action::MoveToEndOfLine { count: 1, select: false }));
    v.push(("+", Action::MoveToStartOfNextLine { count: 1, select: false }));
    v.push(("g+", Action::MoveToEndOfNextLine { count: 1, select: false }));
    v.push(("H", Action::MoveToScreenTop { count: 1, select: false }));
    v.push(("M", Action::MoveToScreenMiddle { count: 1, select: false }));
    v.push(("L", Action::MoveToScreenBottom { count: 1, select: false }));
    v.push(("{", Action::MoveToPreviousParagraph { count: 1, select: false }));
    v.push(("}", Action::MoveToNextParagraph { count: 1, select: false }));
    v.push(("(", Action::MoveToPreviousSentence { count: 1, select: false }));
    v.push((")", Action::MoveToNextSentence { count: 1, select: false }));
    v.push(("f{c}", Action::MoveToNextCharacter { count: 1, select: false, ch: '?' }));
    v.push(("F{c}", Action::MoveToPreviousCharacter { count: 1, select: false, ch: '?' }));
    v.push(("C-f", Action::ScrollForward { count: 1 }));
    v.push(("C-b", Action::ScrollBackward { count: 1 }));
    v.push(("C-d", Action::ScrollHalfPageDown { count: 1 }));
    v.push(("C-u", Action::ScrollHalfPageUp { count: 1 }));
    v.push(("C-e", Action::ScrollLineDown { count: 1 }));
    v.push(("C-y", Action::ScrollLineUp { count: 1 }));
    v.push(("|", Action::MoveToColumn { count: 1 }));
    v.push(("/", Action::SearchForward { count: 1 }));
    v.push(("?", Action::SearchBackward { count: 1 }));
    v.push(("n", Action::SearchNext { count: 1 }));
    v.push(("N", Action::SearchPrevious { count: 1 }));
    v.push(("End", Action::MoveToEndOfLine { count: 1, select: false }));
    v.push(("Home", Action::MoveToStartOfLine { count: 1, select: false }));
    proof {
        assert(list_view(v@) =~= default_motion_bindings());
    }
    v
}

/// The default bindings for normal-mode commands, in the order they are made.
pub open spec fn default_normal_bindings() -> Seq<(Seq<char>, Action)> {
    seq![
        ("dd"@, Action::DeleteLine { count: 1 }),
        ("cc"@, Action::ChangeLine { count: 1 }),
        ("yy"@, Action::YankLine { count: 1 }),
        ("x"@, Action::DeleteChar { count: 1 }),
        ("X"@, Action::DeleteCharBefore { count: 1 }),
        ("p"@, Action::Put { count: 1 }),
        ("P"@, Action::PutBefore { count: 1 }),
        ("J"@, Action::JoinLines { count: 1 }),
        ("u"@, Action::Undo { count: 1 }),
        ("C-r"@, Action::Redo { count: 1 }),
        ("."@, Action::Repeat { count: 1 }),
        (">"@, Action::Indent { count: 1 }),
        ("<"@, Action::Outdent { count: 1 }),
        ("~"@, Action::ChangeCase { count: 1 }),
        ("Delete"@, Action::DeleteChar { count: 1 }),
        ("Backspace"@, Action::MoveLeft { count: 1, select: false }),
        ("Esc"@, Action::Clear),
    ]
}

/// The action a list of bindings gives the binding string `keys`: the last
/// entry for it, since a later binding replaces an earlier one.
pub open spec fn binding_for(list: Seq<(Seq<char>, Action)>, keys: Seq<char>) -> Option<Action>
    decreases list.len(),
{
    if list.len() == 0 {
        None
    } else if list.last().0 == keys {
        Some(list.last().1)
    } else {
        binding_for(list.drop_last(), keys)
    }
}

proof fn lemma_binding_for_at(list: Seq<(Seq<char>, Action)>, keys: Seq<char>, i: int)
    requires
        0 <= i < list.len(),
        list[i].0 == keys,
        forall|j: int| i < j < list.len() ==> (#[trigger] list[j]).0 != keys,
    ensures
        binding_for(list, keys) == Some(list[i].1),
    decreases list.len(),
{
    if i < list.len() - 1 {
        assert(list.last().0 != keys);
        lemma_binding_for_at(list.drop_last(), keys, i);
    }
}

/// The default normal-mode keys act as documented: `x` deletes the
/// character under the cursor and `X` the one before it, `p` puts after and
/// `P` before, `dd`, `cc` and `yy` work on whole lines, `J` joins lines,
/// `u` undoes and `C-r` redoes, and each capital key is the backward
/// counterpart of its lower-case key with the same count.
pub proof fn law_default_normal_keys(c: u32)
    ensures
        binding_for(default_normal_bindings(), "x"@) == Some(Action::DeleteChar { count: 1 }),
        binding_for(default_normal_bindings(), "X"@) == Some(Action::DeleteCharBefore { count: 1 }),
        binding_for(default_normal_bindings(), "p"@) == Some(Action::Put { count: 1 }),
        binding_for(default_normal_bindings(), "P"@) == Some(Action::PutBefore { count: 1 }),
        binding_for(default_normal_bindings(), "dd"@) == Some(Action::DeleteLine { count: 1 }),
        binding_for(default_normal_bindings(), "cc"@) == Some(Action::ChangeLine { count: 1 }),
        binding_for(default_normal_bindings(), "yy"@) == Some(Action::YankLine { count: 1 }),
        binding_for(default_normal_bindings(), "J"@) == Some(Action::JoinLines { count: 1 }),
        binding_for(default_normal_bindings(), "u"@) == Some(Action::Undo { count: 1 }),
        binding_for(default_normal_bindings(), "C-r"@) == Some(Action::Redo { count: 1 }),
        binding_for(default_normal_bindings(), "x"@) == Some(Action::DeleteChar { count: c }) <==> binding_for(
            default_normal_bindings(),
            "X"@,
        ) == Some(Action::DeleteCharBefore { count: c }),
        binding_for(default_normal_bindings(), "p"@) == Some(Action::Put { count: c }) <==> binding_for(
            default_normal_bindings(),
            "P"@,
        ) == Some(Action::PutBefore { count: c }),
{
    reveal_strlit("dd");
    reveal_strlit("cc");
    reveal_strlit("yy");
    reveal_strlit("x");
    reveal_strlit("X");
    reveal_strlit("p");
    reveal_strlit("P");
    reveal_strlit("J");
    reveal_strlit("u");
    reveal_strlit("C-r");
    reveal_strlit(".");
    reveal_strlit(">");
    reveal_strlit("<");
    reveal_strlit("~");
    reveal_strlit("Delete");
    reveal_strlit("Backspace");
    reveal_strlit("Esc");
    let l = default_normal_bindings();
    assert forall|i: int, j: int| 0 <= i < j < l.len() implies (#[trigger] l[i]).0 != (#[trigger] l[j]).0 by {
        assert(l[i].0.len() != l[j].0.len() || l[i].0[0] != l[j].0[0] || l[i].0[l[i].0.len() - 1] != l[j].0[l[j].0.len() - 1]);
    }
    lemma_binding_for_at(l, "dd"@, 0);
    lemma_binding_for_at(l, "cc"@, 1);
    lemma_binding_for_at(l, "yy"@, 2);
    lemma_binding_for_at(l, "x"@, 3);
    lemma_binding_for_at(l, "X"@, 4);
    lemma_binding_for_at(l, "p"@, 5);
    lemma_binding_for_at(l, "P"@, 6);
    lemma_binding_for_at(l, "J"@, 7);
    lemma_binding_for_at(l, "u"@, 8);
    lemma_binding_for_at(l, "C-r"@, 9);
}

fn default_normal_list() -> (v: Vec<(&'static str, Action)>)
    ensures
        list_view(v@) == default_normal_bindings(),
{
    let mut v: Vec<(&'static str, Action)> = Vec::new();
    v.push(("dd", Action::DeleteLine { count: 1 }));
    v.push(("cc", Action::ChangeLine { count: 1 }));
    v.push(("yy", Action::YankLine { count: 1 }));
    v.push(("x", Action::DeleteChar { count: 1 }));
    v.push(("X", Action::DeleteCharBefore { count: 1 }));
    v.push(("p", Action::Put { count: 1 }));
    v.push(("P", Action::PutBefore { count: 1 }));
    v.push(("J", Action::JoinLines { count: 1 }));
    v.push(("u", Action::Undo { count: 1 }));
    v.push(("C-r", Action::Redo { count: 1 }));
    v.push((".", Action::Repeat { count: 1 }));
    v.push((">", Action::Indent { count: 1 }));
    v.push(("<", Action::Outdent { count: 1 }));
    v.push(("~", Action::ChangeCase { count: 1 }));
    v.push(("Delete", Action::DeleteChar { count: 1 }));
    v.push(("Backspace", Action::MoveLeft { count: 1, select: false }));
    v.push(("Esc", Action::Clear));
    proof {
        assert(list_view(v@) =~= default_normal_bindings());
    }
    v
}

/// The default bindings for mode changes, in the order they are made.
pub open spec fn default_mode_bindings() -> Seq<(Seq<char>, Action)> {
    seq![
        ("i"@, Action::SetToInsert),
        ("v"@, Action::SetToVisual),
        ("V"@, Action::SetToVisualLine),
        ("C-v"@, Action::SetToVisualBlock),
        (":"@, Action::SetToCommand),
    ]
}

fn default_mode_list() -> (v: Vec<(&'static str, Action)>)
    ensures
        list_view(v@) == default_mode_bindings(),
{
    let mut v: Vec<(&'static str, Action)> = Vec::new();
    v.push(("i", Action::SetToInsert));
    v.push(("v", Action::SetToVisual));
    v.push(("V", Action::SetToVisualLine));
    v.push(("C-v", Action::SetToVisualBlock));
    v.push((":", Action::SetToCommand));
    proof {
        assert(list_view(v@) =~= default_mode_bindings());
    }
    v
}

/// The default bindings for insert-mode keys, in the order they are made.
pub open spec fn default_insert_bindings() -> Seq<(Seq<char>, Action)> {
    seq![
        ("Left"@, Action::MoveLeft { count: 1, select: false }),
        ("Right"@, Action::MoveRight { count: 1, select: false }),
        ("Up"@, Action::MoveUp { count: 1, select: false }),
        ("Down"@, Action::MoveDown { count: 1, select: false }),
        ("PageUp"@, Action::MovePageUp { count: 1, select: false }),
        ("Esc"@, Action::Clear),
        ("Enter"@, Action::InsertNewLine { count: 1 }),
        ("Tab"@, Action::InsertTab),
        ("Backspace"@, Action::DeleteCharBefore { count: 1 }),
        ("Delete"@, Action::DeleteChar { count: 1 }),
    ]
}

fn default_insert_list() -> (v: Vec<(&'static str, Action)>)
    ensures
        list_view(v@) == default_insert_bindings(),
{
    let mut v: Vec<(&'static str, Action)> = Vec::new();
    v.push(("Left", Action::MoveLeft { count: 1, select: false }));
    v.push(("Right", Action::MoveRight { count: 1, select: false }));
    v.push(("Up", Action::MoveUp { count: 1, select: false }));
    v.push(("Down", Action::MoveDown { count: 1, select: false }));
    v.push(("PageUp", Action::MovePageUp { count: 1, select: false }));
    v.push(("Esc", Action::Clear));
    v.push(("Enter", Action::InsertNewLine { count: 1 }));
    v.push(("Tab", Action::InsertTab));
    v.push(("Backspace", Action::DeleteCharBefore { count: 1 }));
    v.push(("Delete", Action::DeleteChar { count: 1 }));
    proof {
        assert(list_view(v@) =~= default_insert_bindings());
    }
    v
}

/// The default bindings for visual-mode keys, in the order they are made.
pub open spec fn default_visual_bindings() -> Seq<(Seq<char>, Action)> {
    seq![
        ("Esc"@, Action::Clear),
    ]
}

fn default_visual_list() -> (v: Vec<(&'static str, Action)>)
    ensures
        list_view(v@) == default_visual_bindings(),
{
    let mut v: Vec<(&'static str, Action)> = Vec::new();
    v.push(("Esc", Action::Clear));
    proof {
        assert(list_view(v@) =~= default_visual_bindings());
    }
    v
}

/// Every default operator key is bound to its documented action.
pub proof fn law_default_op_keys()
    ensures
        binding_for(default_op_bindings(), "d"@) == Some(Action::Delete { count: 1 }),
        binding_for(default_op_bindings(), "c"@) == Some(Action::Change { count: 1 }),
        binding_for(default_op_bindings(), "y"@) == Some(Action::Yank { count: 1 }),
{
    reveal_strlit("d");
    reveal_strlit("c");
    reveal_strlit("y");
    let l = default_op_bindings();
    assert forall|i: int, j: int| 0 <= i < j < l.len() implies (#[trigger] l[i]).0 != (#[trigger] l[j]).0 by {
        assert(l[i].0.len() != l[j].0.len() || l[i].0[0] != l[j].0[0] || l[i].0[l[i].0.len() - 1] != l[j].0[l[j].0.len() - 1]);
    }
    lemma_binding_for_at(l, "d"@, 0);
    lemma_binding_for_at(l, "c"@, 1);
    lemma_binding_for_at(l, "y"@, 2);
}

/// Every default motion key is bound to its documented action.
pub proof fn law_default_motion_keys()
    ensures
        binding_for(default_motion_bindings(), "w"@) == Some(Action::MoveToWord { count: 1, select: false }),
        binding_for(default_motion_bindings(), "e"@) == Some(Action::MoveToWordEnd { count: 1, select: false }),
        binding_for(default_motion_bindings(), "b"@) == Some(Action::MoveToPreviousWord { count: 1, select: false }),
        binding_for(default_motion_bindings(), "ge"@) == Some(Action::MoveToPreviousWordEnd { count: 1, select: false }),
        binding_for(default_motion_bindings(), "W"@) == Some(Action::MoveToBigWord { count: 1, select: false }),
        binding_for(default_motion_bindings(), "B"@) == Some(Action::MoveToPreviousBigWord { count: 1, select: false }),
        binding_for(default_motion_bindings(), "E"@) == Some(Action::MoveToBigWordEnd { count: 1, select: false }),
        binding_for(default_motion_bindings(), "h"@) == Some(Action::MoveLeft { count: 1, select: false }),
        binding_for(default_motion_bindings(), "l"@) == Some(Action::MoveRight { count: 1, select: false }),
        binding_for(default_motion_bindings(), "k"@) == Some(Action::MoveUp { count: 1, select: false }),
        binding_for(default_motion_bindings(), "j"@) == Some(Action::MoveDown { count: 1, select: false }),
        binding_for(default_motion_bindings(), "Left"@) == Some(Action::MoveLeft { count: 1, select: false }),
        binding_for(default_motion_bindings(), "Right"@) == Some(Action::MoveRight { count: 1, select: false }),
        binding_for(default_motion_bindings(), "Up"@) == Some(Action::MoveUp { count: 1, select: false }),
        binding_for(default_motion_bindings(), "Down"@) == Some(Action::MoveDown { count: 1, select: false }),
        binding_for(default_motion_bindings(), "gg"@) == Some(Action::MoveToStartOfDocument { count: 1, select: false }),
        binding_for(default_motion_bindings(), "G"@) == Some(Action::MoveToEndOfDocument { count: 1, select: false }),
        binding_for(default_motion_bindings(), "0"@) == Some(Action::MoveToStartOfLine { count: 1, select: false }),
        binding_for(default_motion_bindings(), "^"@) == Some(Action::MoveToStartOfLineNonSpace { count: 1, select: false }),
        binding_for(default_motion_bindings(), "$"@) == Some(Action::MoveToEndOfLine { count: 1, select: false }),
        binding_for(default_motion_bindings(), "+"@) == Some(Action::MoveToStartOfNextLine { count: 1, select: false }),
        binding_for(default_motion_bindings(), "g+"@) == Some(Action::MoveToEndOfNextLine { count: 1, select: false }),
        binding_for(default_motion_bindings(), "H"@) == Some(Action::MoveToScreenTop { count: 1, select: false }),
        binding_for(default_motion_bindings(), "M"@) == Some(Action::MoveToScreenMiddle { count: 1, select: false }),
        binding_for(default_motion_bindings(), "L"@) == Some(Action::MoveToScreenBottom { count: 1, select: false }),
        binding_for(default_motion_bindings(), "{"@) == Some(Action::MoveToPreviousParagraph { count: 1, select: false }),
        binding_for(default_motion_bindings(), "}"@) == Some(Action::MoveToNextParagraph { count: 1, select: false }),
        binding_for(default_motion_bindings(), "("@) == Some(Action::MoveToPreviousSentence { count: 1, select: false }),
        binding_for(default_motion_bindings(), ")"@) == Some(Action::MoveToNextSentence { count: 1, select: false }),
        binding_for(default_motion_bindings(), "f{c}"@) == Some(Action::MoveToNextCharacter { count: 1, select: false, ch: '?' }),
        binding_for(default_motion_bindings(), "F{c}"@) == Some(Action::MoveToPreviousCharacter { count: 1, select: false, ch: '?' }),
        binding_for(default_motion_bindings(), "C-f"@) == Some(Action::ScrollForward { count: 1 }),
        binding_for(default_motion_bindings(), "C-b"@) == Some(Action::ScrollBackward { count: 1 }),
        binding_for(default_motion_bindings(), "C-d"@) == Some(Action::ScrollHalfPageDown { count: 1 }),
        binding_for(default_motion_bindings(), "C-u"@) == Some(Action::ScrollHalfPageUp { count: 1 }),
        binding_for(default_motion_bindings(), "C-e"@) == Some(Action::ScrollLineDown { count: 1 }),
        binding_for(default_motion_bindings(), "C-y"@) == Some(Action::ScrollLineUp { count: 1 }),
        binding_for(default_motion_bindings(), "|"@) == Some(Action::MoveToColumn { count: 1 }),
        binding_for(default_motion_bindings(), "/"@) == Some(Action::SearchForward { count: 1 }),
        binding_for(default_motion_bindings(), "?"@) == Some(Action::SearchBackward { count: 1 }),
        binding_for(default_motion_bindings(), "n"@) == Some(Action::SearchNext { count: 1 }),
        binding_for(default_motion_bindings(), "N"@) == Some(Action::SearchPrevious { count: 1 }),
        binding_for(default_motion_bindings(), "End"@) == Some(Action::MoveToEndOfLine { count: 1, select: false }),
        binding_for(default_motion_bindings(), "Home"@) == Some(Action::MoveToStartOfLine { count: 1, select: false }),
{
    reveal_strlit("w");
    reveal_strlit("e");
    reveal_strlit("b");
    reveal_strlit("ge");
    reveal_strlit("W");
    reveal_strlit("B");
    reveal_strlit("E");
    reveal_strlit("h");
    reveal_strlit("l");
    reveal_strlit("k");
    reveal_strlit("j");
    reveal_strlit("Left");
    reveal_strlit("Right");
    reveal_strlit("Up");
    reveal_strlit("Down");
    reveal_strlit("gg");
    reveal_strlit("G");
    reveal_strlit("0");
    reveal_strlit("^");
    reveal_strlit("$");
    reveal_strlit("+");
    reveal_strlit("g+");
    reveal_strlit("H");
    reveal_strlit("M");
    reveal_strlit("L");
    reveal_strlit("{");
    reveal_strlit("}");
    reveal_strlit("(");
    reveal_strlit(")");
    reveal_strlit("f{c}");
    reveal_strlit("F{c}");
    reveal_strlit("C-f");
    reveal_strlit("C-b");
    reveal_strlit("C-d");
    reveal_strlit("C-u");
    reveal_strlit("C-e");
    reveal_strlit("C-y");
    reveal_strlit("|");
    reveal_strlit("/");
    reveal_strlit("?");
    reveal_strlit("n");
    reveal_strlit("N");
    reveal_strlit("End");
    reveal_strlit("Home");
    let l = default_motion_bindings();
    assert forall|i: int, j: int| 0 <= i < j < l.len() implies (#[trigger] l[i]).0 != (#[trigger] l[j]).0 by {
        assert(l[i].0.len() != l[j].0.len() || l[i].0[0] != l[j].0[0] || l[i].0[l[i].0.len() - 1] != l[j].0[l[j].0.len() - 1]);
    }
    lemma_binding_for_at(l, "w"@, 0);
    lemma_binding_for_at(l, "e"@, 1);
    lemma_binding_for_at(l, "b"@, 2);
    lemma_binding_for_at(l, "ge"@, 3);
    lemma_binding_for_at(l, "W"@, 4);
    lemma_binding_for_at(l, "B"@, 5);
    lemma_binding_for_at(l, "E"@, 6);
    lemma_binding_for_at(l, "h"@, 7);
    lemma_binding_for_at(l, "l"@, 8);
    lemma_binding_for_at(l, "k"@, 9);
    lemma_binding_for_at(l, "j"@, 10);
    lemma_binding_for_at(l, "Left"@, 11);
    lemma_binding_for_at(l, "Right"@, 12);
    lemma_binding_for_at(l, "Up"@, 13);
    lemma_binding_for_at(l, "Down"@, 14);
    lemma_binding_for_at(l, "gg"@, 15);
    lemma_binding_for_at(l, "G"@, 16);
    lemma_binding_for_at(l, "0"@, 17);
    lemma_binding_for_at(l, "^"@, 18);
    lemma_binding_for_at(l, "$"@, 19);
    lemma_binding_for_at(l, "+"@, 20);
    lemma_binding_for_at(l, "g+"@, 21);
    lemma_binding_for_at(l, "H"@, 22);
    lemma_binding_for_at(l, "M"@, 23);
    lemma_binding_for_at(l, "L"@, 24);
    lemma_binding_for_at(l, "{"@, 25);
    lemma_binding_for_at(l, "}"@, 26);
    lemma_binding_for_at(l, "("@, 27);
    lemma_binding_for_at(l, ")"@, 28);
    lemma_binding_for_at(l, "f{c}"@, 29);
    lemma_binding_for_at(l, "F{c}"@, 30);
    lemma_binding_for_at(l, "C-f"@, 31);
    lemma_binding_for_at(l, "C-b"@, 32);
    lemma_binding_for_at(l, "C-d"@, 33);
    lemma_binding_for_at(l, "C-u"@, 34);
    lemma_binding_for_at(l, "C-e"@, 35);
    lemma_binding_for_at(l, "C-y"@, 36);
    lemma_binding_for_at(l, "|"@, 37);
    lemma_binding_for_at(l, "/"@, 38);
    lemma_binding_for_at(l, "?"@, 39);
    lemma_binding_for_at(l, "n"@, 40);
    lemma_binding_for_at(l, "N"@, 41);
    lemma_binding_for_at(l, "End"@, 42);
    lemma_binding_for_at(l, "Home"@, 43);
}

/// Every default normal-mode key is bound to its documented action.
pub proof fn law_default_normal_table()
    ensures
        binding_for(default_normal_bindings(), "dd"@) == Some(Action::DeleteLine { count: 1 }),
        binding_for(default_normal_bindings(), "cc"@) == Some(Action::ChangeLine { count: 1 }),
        binding_for(default_normal_bindings(), "yy"@) == Some(Action::YankLine { count: 1 }),
        binding_for(default_normal_bindings(), "x"@) == Some(Action::DeleteChar { count: 1 }),
        binding_for(default_normal_bindings(), "X"@) == Some(Action::DeleteCharBefore { count: 1 }),
        binding_for(default_normal_bindings(), "p"@) == Some(Action::Put { count: 1 }),
        binding_for(default_normal_bindings(), "P"@) == Some(Action::PutBefore { count: 1 }),
        binding_for(default_normal_bindings(), "J"@) == Some(Action::JoinLines { count: 1 }),
        binding_for(default_normal_bindings(), "u"@) == Some(Action::Undo { count: 1 }),
        binding_for(default_normal_bindings(), "C-r"@) == Some(Action::Redo { count: 1 }),
        binding_for(default_normal_bindings(), "."@) == Some(Action::Repeat { count: 1 }),
        binding_for(default_normal_bindings(), ">"@) == Some(Action::Indent { count: 1 }),
        binding_for(default_normal_bindings(), "<"@) == Some(Action::Outdent { count: 1 }),
        binding_for(default_normal_bindings(), "~"@) == Some(Action::ChangeCase { count: 1 }),
        binding_for(default_normal_bindings(), "Delete"@) == Some(Action::DeleteChar { count: 1 }),
        binding_for(default_normal_bindings(), "Backspace"@) == Some(Action::MoveLeft { count: 1, select: false }),
        binding_for(default_normal_bindings(), "Esc"@) == Some(Action::Clear),
{
    reveal_strlit("dd");
    reveal_strlit("cc");
    reveal_strlit("yy");
    reveal_strlit("x");
    reveal_strlit("X");
    reveal_strlit("p");
    reveal_strlit("P");
    reveal_strlit("J");
    reveal_strlit("u");
    reveal_strlit("C-r");
    reveal_strlit(".");
    reveal_strlit(">");
    reveal_strlit("<");
    reveal_strlit("~");
    reveal_strlit("Delete");
    reveal_strlit("Backspace");
    reveal_strlit("Esc");
    let l = default_normal_bindings();
    assert forall|i: int, j: int| 0 <= i < j < l.len() implies (#[trigger] l[i]).0 != (#[trigger] l[j]).0 by {
        assert(l[i].0.len() != l[j].0.len() || l[i].0[0] != l[j].0[0] || l[i].0[l[i].0.len() - 1] != l[j].0[l[j].0.len() - 1]);
    }
    lemma_binding_for_at(l, "dd"@, 0);
    lemma_binding_for_at(l, "cc"@, 1);
    lemma_binding_for_at(l, "yy"@, 2);
    lemma_binding_for_at(l, "x"@, 3);
    lemma_binding_for_at(l, "X"@, 4);
    lemma_binding_for_at(l, "p"@, 5);
    lemma_binding_for_at(l, "P"@, 6);
    lemma_binding_for_at(l, "J"@, 7);
    lemma_binding_for_at(l, "u"@, 8);
    lemma_binding_for_at(l, "C-r"@, 9);
    lemma_binding_for_at(l, "."@, 10);
    lemma_binding_for_at(l, ">"@, 11);
    lemma_binding_for_at(l, "<"@, 12);
    lemma_binding_for_at(l, "~"@, 13);
    lemma_binding_for_at(l, "Delete"@, 14);
    lemma_binding_for_at(l, "Backspace"@, 15);
    lemma_binding_for_at(l, "Esc"@, 16);
}

/// Every default mode-change key is bound to its documented action.
pub proof fn law_default_mode_keys()
    ensures
        binding_for(default_mode_bindings(), "i"@) == Some(Action::SetToInsert),
        binding_for(default_mode_bindings(), "v"@) == Some(Action::SetToVisual),
        binding_for(default_mode_bindings(), "V"@) == Some(Action::SetToVisualLine),
        binding_for(default_mode_bindings(), "C-v"@) == Some(Action::SetToVisualBlock),
        binding_for(default_mode_bindings(), ":"@) == Some(Action::SetToCommand),
{
    reveal_strlit("i");
    reveal_strlit("v");
    reveal_strlit("V");
    reveal_strlit("C-v");
    reveal_strlit(":");
    let l = default_mode_bindings();
    assert forall|i: int, j: int| 0 <= i < j < l.len() implies (#[trigger] l[i]).0 != (#[trigger] l[j]).0 by {
        assert(l[i].0.len() != l[j].0.len() || l[i].0[0] != l[j].0[0] || l[i].0[l[i].0.len() - 1] != l[j].0[l[j].0.len() - 1]);
    }
    lemma_binding_for_at(l, "i"@, 0);
    lemma_binding_for_at(l, "v"@, 1);
    lemma_binding_for_at(l, "V"@, 2);
    lemma_binding_for_at(l, "C-v"@, 3);
    lemma_binding_for_at(l, ":"@, 4);
}

/// Every default insert-mode key is bound to its documented action.
pub proof fn law_default_insert_keys()
    ensures
        binding_for(default_insert_bindings(), "Left"@) == Some(Action::MoveLeft { count: 1, select: false }),
        binding_for(default_insert_bindings(), "Right"@) == Some(Action::MoveRight { count: 1, select: false }),
        binding_for(default_insert_bindings(), "Up"@) == Some(Action::MoveUp { count: 1, select: false }),
        binding_for(default_insert_bindings(), "Down"@) == Some(Action::MoveDown { count: 1, select: false }),
        binding_for(default_insert_bindings(), "PageUp"@) == Some(Action::MovePageUp { count: 1, select: false }),
        binding_for(default_insert_bindings(), "Esc"@) == Some(Action::Clear),
        binding_for(default_insert_bindings(), "Enter"@) == Some(Action::InsertNewLine { count: 1 }),
        binding_for(default_insert_bindings(), "Tab"@) == Some(Action::InsertTab),
        binding_for(default_insert_bindings(), "Backspace"@) == Some(Action::DeleteCharBefore { count: 1 }),
        binding_for(default_insert_bindings(), "Delete"@) == Some(Action::DeleteChar { count: 1 }),
{
    reveal_strlit("Left");
    reveal_strlit("Right");
    reveal_strlit("Up");
    reveal_strlit("Down");
    reveal_strlit("PageUp");
    reveal_strlit("Esc");
    reveal_strlit("Enter");
    reveal_strlit("Tab");
    reveal_strlit("Backspace");
    reveal_strlit("Delete");
    let l = default_insert_bindings();
    assert forall|i: int, j: int| 0 <= i < j < l.len() implies (#[trigger] l[i]).0 != (#[trigger] l[j]).0 by {
        assert(l[i].0.len() != l[j].0.len() || l[i].0[0] != l[j].0[0] || l[i].0[l[i].0.len() - 1] != l[j].0[l[j].0.len() - 1]);
    }
    lemma_binding_for_at(l, "Left"@, 0);
    lemma_binding_for_at(l, "Right"@, 1);
    lemma_binding_for_at(l, "Up"@, 2);
    lemma_binding_for_at(l, "Down"@, 3);
    lemma_binding_for_at(l, "PageUp"@, 4);
    lemma_binding_for_at(l, "Esc"@, 5);
    lemma_binding_for_at(l, "Enter"@, 6);
    lemma_binding_for_at(l, "Tab"@, 7);
    lemma_binding_for_at(l, "Backspace"@, 8);
    lemma_binding_for_at(l, "Delete"@, 9);
}

/// Every default visual-mode key is bound to its documented action.
pub proof fn law_default_visual_keys()
    ensures
        binding_for(default_visual_bindings(), "Esc"@) == Some(Action::Clear),
{
    reveal_strlit("Esc");
    let l = default_visual_bindings();
    assert forall|i: int, j: int| 0 <= i < j < l.len() implies (#[trigger] l[i]).0 != (#[trigger] l[j]).0 by {
        assert(l[i].0.len() != l[j].0.len() || l[i].0[0] != l[j].0[0] || l[i].0[l[i].0.len() - 1] != l[j].0[l[j].0.len() - 1]);
    }
    lemma_binding_for_at(l, "Esc"@, 0);
}

/// The editor's key bindings, one table per kind of command.
pub struct Keymap {
    pub op_actions: KeyBindings,
    pub motion_actions: KeyBindings,
    pub normal_actions: KeyBindings,
    pub mode_actions: KeyBindings,
    pub insert_actions: KeyBindings,
    pub visual_actions: KeyBindings,
}

impl Keymap {
    /// The default bindings; see the `default_*_bindings` functions.
    pub fn new() -> (km: Keymap)
        ensures
            km.op_actions@ == bind_all_spec(Seq::empty(), default_op_bindings()),
            km.motion_actions@ == bind_all_spec(Seq::empty(), default_motion_bindings()),
            km.normal_actions@ == bind_all_spec(Seq::empty(), default_normal_bindings()),
            km.mode_actions@ == bind_all_spec(Seq::empty(), default_mode_bindings()),
            km.insert_actions@ == bind_all_spec(Seq::empty(), default_insert_bindings()),
            km.visual_actions@ == bind_all_spec(Seq::empty(), default_visual_bindings()),
    {
        Keymap {
            op_actions: bind_list(&default_op_list()),
            motion_actions: bind_list(&default_motion_list()),
            normal_actions: bind_list(&default_normal_list()),
            mode_actions: bind_list(&default_mode_list()),
            insert_actions: bind_list(&default_insert_list()),
            visual_actions: bind_list(&default_visual_list()),
        }
    }
}

} // verus!
