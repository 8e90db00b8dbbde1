//! The built-in grammars and how a file's path chooses one.
use vstd::prelude::*;
use crate::text_util::{split_chars, split_spec};
use crate::text_util::{chars_eq_str, str_to_chars, to_ascii_lowercase, to_ascii_lowercase_spec};
use tree_sitter::Language;

verus! {

/// A language's grammar, as a tree-sitter `Language` of the crate
/// `tree-sitter`; opaque here.
#[verifier::external_type_specification]
#[verifier::external_body]
pub struct ExLanguage(tree_sitter::Language);

/// The grammars the editor knows.
#[derive(Debug, Clone, Copy, PartialEq, Eq, Structural)]
pub enum Grammar {
    Bash,
    C,
    Css,
    Go,
    Html,
    JavaScript,
    Json,
    Python,
    Rust,
    TypeScript,
    Tsx,
    Zig,
}

// ---------------------------------------------------------------------------
// Paths
// ---------------------------------------------------------------------------

/// The last piece that names something: empty pieces and `.` are skipped.
pub open spec fn last_named_piece(pieces: Seq<Seq<char>>) -> Option<Seq<char>>
    decreases pieces.len(),
{
    if pieces.len() == 0 {
        None
    } else if pieces.last() == ""@ || pieces.last() == "."@ {
        last_named_piece(pieces.drop_last())
    } else {
        Some(pieces.last())
    }
}

/// The file name of a `/`-separated path: its final component, or none
/// where the path ends in `..` or has no component.
pub open spec fn file_name_spec(path: Seq<char>) -> Option<Seq<char>> {
    match last_named_piece(split_spec(path, '/')) {
        Some(p) => if p == ".."@ {
            None
        } else {
            Some(p)
        },
        None => None,
    }
}

/// The index of the last `.` in `f[..n]`, or -1.
pub open spec fn last_dot(f: Seq<char>, n: int) -> int
    decreases n,
{
    if n <= 0 {
        -1
    } else if f[n - 1] == '.' {
        n - 1
    } else {
        last_dot(f, n - 1)
    }
}

/// The extension of a file name: what follows its last `.`; none where there
/// is no `.`, or the only one starts the name.
pub open spec fn extension_spec(f: Seq<char>) -> Option<Seq<char>> {
    let d = last_dot(f, f.len() as int);
    if d <= 0 {
        None
    } else {
        Some(f.subrange(d + 1, f.len() as int))
    }
}

/// ASCII lower case of every character.
pub open spec fn ascii_lower(s: Seq<char>) -> Seq<char> {
    s.map_values(|c: char| to_ascii_lowercase_spec(c))
}

/// Shell start-up files named without an extension.
pub open spec fn is_bash_file_name(name: Seq<char>) -> bool {
    name == ".bashrc"@ || name == ".bash_profile"@ || name == ".profile"@ || name == "bashrc"@ || name
        == "bash_profile"@
}

/// The grammar of a lower-case file extension.
pub open spec fn grammar_for_extension(ext: Seq<char>) -> Option<Grammar> {
    if ext == "sh"@ || ext == "bash"@ {
        Some(Grammar::Bash)
    } else if ext == "c"@ || ext == "h"@ {
        Some(Grammar::C)
    } else if ext == "css"@ {
        Some(Grammar::Css)
    } else if ext == "go"@ {
        Some(Grammar::Go)
    } else if ext == "html"@ || ext == "htm"@ {
        Some(Grammar::Html)
    } else if ext == "js"@ || ext == "jsx"@ || ext == "mjs"@ || ext == "cjs"@ {
        Some(Grammar::JavaScript)
    } else if ext == "json"@ || ext == "jsonc"@ {
        Some(Grammar::Json)
    } else if ext == "py"@ || ext == "pyi"@ || ext == "pyw"@ {
        Some(Grammar::Python)
    } else if ext == "rs"@ {
        Some(Grammar::Rust)
    } else if ext == "ts"@ || ext == "mts"@ || ext == "cts"@ {
        Some(Grammar::TypeScript)
    } else if ext == "tsx"@ {
        Some(Grammar::Tsx)
    } else if ext == "zig"@ {
        Some(Grammar::Zig)
    } else {
        None
    }
}

/// The grammar for a path: shell start-up files by name, anything else by
/// its extension, letter case ignored.
pub open spec fn grammar_for_path(path: Seq<char>) -> Option<Grammar> {
    let name = match file_name_spec(path) {
        Some(f) => f,
        None => Seq::empty(),
    };
    if is_bash_file_name(ascii_lower(name)) {
        Some(Grammar::Bash)
    } else {
        match file_name_spec(path) {
            None => None,
            Some(f) => match extension_spec(f) {
                None => None,
                Some(e) => grammar_for_extension(ascii_lower(e)),
            },
        }
    }
}

fn file_name_of(path: &Vec<char>) -> (r: Option<Vec<char>>)
    ensures
        match (r, file_name_spec(path@)) {
            (Some(a), Some(b)) => a@ == b,
            (None, None) => true,
            _ => false,
        },
{
    let pieces = split_chars(path, '/');
    let ghost sp = split_spec(path@, '/');
    let mut i: usize = pieces.len();
    proof {
        assert(sp.subrange(0, sp.len() as int) =~= sp);
    }
    while i > 0
        invariant
            sp == split_spec(path@, '/'),
            i <= pieces@.len(),
            pieces@.len() == sp.len(),
            forall|j: int| 0 <= j < pieces@.len() ==> #[trigger] pieces@[j]@ == sp[j],
            last_named_piece(sp) == last_named_piece(sp.subrange(0, i as int)),
        decreases i,
    {
        let p = &pieces[i - 1];
        proof {
            let t = sp.subrange(0, i as int);
            assert(t.drop_last() =~= sp.subrange(0, i - 1));
            assert(t.last() == p@);
        }
        if !(chars_eq_str(p.as_slice(), "") || chars_eq_str(p.as_slice(), ".")) {
            if chars_eq_str(p.as_slice(), "..") {
                return None;
            }
            let mut out: Vec<char> = Vec::new();
            let mut j: usize = 0;
            while j < p.len()
                invariant
                    j <= p@.len(),
                    out@ == p@.subrange(0, j as int),
                decreases p@.len() - j,
            {
                out.push(p[j]);
                j = j + 1;
                proof {
                    assert(out@ =~= p@.subrange(0, j as int));
                }
            }
            proof {
                assert(out@ =~= p@);
            }
            return Some(out);
        }
        i = i - 1;
    }
    None
}

fn extension_of(f: &Vec<char>) -> (r: Option<Vec<char>>)
    ensures
        match (r, extension_spec(f@)) {
            (Some(a), Some(b)) => a@ == b,
            (None, None) => true,
            _ => false,
        },
{
    let n = f.len();
    let mut k: usize = n;
    while k > 0 && f[k - 1] != '.'
        invariant
            k <= n,
            n == f@.len(),
            last_dot(f@, n as int) == last_dot(f@, k as int),
        decreases k,
    {
        k = k - 1;
    }
    if k <= 1 {
        return None;
    }
    let mut out: Vec<char> = Vec::new();
    let mut j: usize = k;
    while j < n
        invariant
            k <= j <= n,
            n == f@.len(),
            out@ == f@.subrange(k as int, j as int),
        decreases n - j,
    {
        out.push(f[j]);
        j = j + 1;
        proof {
            assert(out@ =~= f@.subrange(k as int, j as int));
        }
    }
    Some(out)
}

fn ascii_lower_chars(s: &Vec<char>) -> (r: Vec<char>)
    ensures
        r@ == ascii_lower(s@),
{
    let mut out: Vec<char> = Vec::new();
    let mut j: usize = 0;
    while j < s.len()
        invariant
            j <= s@.len(),
            out@ == ascii_lower(s@.subrange(0, j as int)),
        decreases s@.len() - j,
    {
        out.push(to_ascii_lowercase(s[j]));
        j = j + 1;
        proof {
            assert(out@ =~= ascii_lower(s@.subrange(0, j as int)));
        }
    }
    proof {
        assert(s@.subrange(0, j as int) =~= s@);
    }
    out
}

fn grammar_for_extension_exec(e: &Vec<char>) -> (g: Option<Grammar>)
    ensures
        g == grammar_for_extension(e@),
{
    let x = e.as_slice();
    if chars_eq_str(x, "sh") || chars_eq_str(x, "bash") {
        Some(Grammar::Bash)
    } else if chars_eq_str(x, "c") || chars_eq_str(x, "h") {
        Some(Grammar::C)
    } else if chars_eq_str(x, "css") {
        Some(Grammar::Css)
    } else if chars_eq_str(x, "go") {
        Some(Grammar::Go)
    } else if chars_eq_str(x, "html") || chars_eq_str(x, "htm") {
        Some(Grammar::Html)
    } else if chars_eq_str(x, "js") || chars_eq_str(x, "jsx") || chars_eq_str(x, "mjs") || chars_eq_str(x, "cjs") {
        Some(Grammar::JavaScript)
    } else if chars_eq_str(x, "json") || chars_eq_str(x, "jsonc") {
        Some(Grammar::Json)
    } else if chars_eq_str(x, "py") || chars_eq_str(x, "pyi") || chars_eq_str(x, "pyw") {
        Some(Grammar::Python)
    } else if chars_eq_str(x, "rs") {
        Some(Grammar::Rust)
    } else if chars_eq_str(x, "ts") || chars_eq_str(x, "mts") || chars_eq_str(x, "cts") {
        Some(Grammar::TypeScript)
    } else if chars_eq_str(x, "tsx") {
        Some(Grammar::Tsx)
    } else if chars_eq_str(x, "zig") {
        Some(Grammar::Zig)
    } else {
        None
    }
}

// ---------------------------------------------------------------------------
// The languages of the grammar crates
// ---------------------------------------------------------------------------

/// `tree_sitter_bash::LANGUAGE` as a `tree_sitter::Language`; nothing is
/// stated of the value.
#[verifier::external_body]
fn bash_language() -> Language {
    tree_sitter_bash::LANGUAGE.into()
}

/// `tree_sitter_c::LANGUAGE` as a `tree_sitter::Language`; nothing is
/// stated of the value.
#[verifier::external_body]
fn c_language() -> Language {
    tree_sitter_c::LANGUAGE.into()
}

/// `tree_sitter_css::LANGUAGE` as a `tree_sitter::Language`; nothing is
/// stated of the value.
#[verifier::external_body]
fn css_language() -> Language {
    tree_sitter_css::LANGUAGE.into()
}

/// `tree_sitter_go::LANGUAGE` as a `tree_sitter::Language`; nothing is
/// stated of the value.
#[verifier::external_body]
fn go_language() -> Language {
    tree_sitter_go::LANGUAGE.into()
}

/// `tree_sitter_html::LANGUAGE` as a `tree_sitter::Language`; nothing is
/// stated of the value.
#[verifier::external_body]
fn html_language() -> Language {
    tree_sitter_html::LANGUAGE.into()
}

/// `tree_sitter_javascript::LANGUAGE` as a `tree_sitter::Language`; nothing
/// is stated of the value.
#[verifier::external_body]
fn javascript_language() -> Language {
    tree_sitter_javascript::LANGUAGE.into()
}

/// `tree_sitter_json::LANGUAGE` as a `tree_sitter::Language`; nothing is
/// stated of the value.
#[verifier::external_body]
fn json_language() -> Language {
    tree_sitter_json::LANGUAGE.into()
}

/// `tree_sitter_python::LANGUAGE` as a `tree_sitter::Language`; nothing is
/// stated of the value.
#[verifier::external_body]
fn python_language() -> Language {
    tree_sitter_python::LANGUAGE.into()
}

/// `tree_sitter_rust::LANGUAGE` as a `tree_sitter::Language`; nothing is
/// stated of the value.
#[verifier::external_body]
fn rust_language() -> Language {
    tree_sitter_rust::LANGUAGE.into()
}

/// `tree_sitter_typescript::LANGUAGE_TYPESCRIPT` as a
/// `tree_sitter::Language`; nothing is stated of the value.
#[verifier::external_body]
fn typescript_language() -> Language {
    tree_sitter_typescript::LANGUAGE_TYPESCRIPT.into()
}

/// `tree_sitter_typescript::LANGUAGE_TSX` as a `tree_sitter::Language`;
/// nothing is stated of the value.
#[verifier::external_body]
fn tsx_language() -> Language {
    tree_sitter_typescript::LANGUAGE_TSX.into()
}

/// `tree_sitter_zig::LANGUAGE` as a `tree_sitter::Language`; nothing is
/// stated of the value.
#[verifier::external_body]
fn zig_language() -> Language {
    tree_sitter_zig::LANGUAGE.into()
}

/// The display name of a grammar.
pub open spec fn grammar_name(g: Grammar) -> Seq<char> {
    match g {
        Grammar::Bash => "Bash"@,
        Grammar::C => "C"@,
        Grammar::Css => "CSS"@,
        Grammar::Go => "Go"@,
        Grammar::Html => "HTML"@,
        Grammar::JavaScript => "JavaScript"@,
        Grammar::Json => "JSON"@,
        Grammar::Python => "Python"@,
        Grammar::Rust => "Rust"@,
        Grammar::TypeScript => "TypeScript"@,
        Grammar::Tsx => "TSX"@,
        Grammar::Zig => "Zig"@,
    }
}

impl Grammar {
    /// Every grammar, in declaration order.
    pub const ALL: [Grammar; 12] = [
        Grammar::Bash,
        Grammar::C,
        Grammar::Css,
        Grammar::Go,
        Grammar::Html,
        Grammar::JavaScript,
        Grammar::Json,
        Grammar::Python,
        Grammar::Rust,
        Grammar::TypeScript,
        Grammar::Tsx,
        Grammar::Zig,
    ];

    /// The grammar for a file path; see [`grammar_for_path`].
    pub fn from_path(path: &str) -> (g: Option<Grammar>)
        ensures
            g == grammar_for_path(path@),
    {
        let chars = str_to_chars(path);
        let file = file_name_of(&chars);
        let name = match &file {
            Some(f) => ascii_lower_chars(f),
            None => Vec::new(),
        };
        let x = name.as_slice();
        proof {
            if file is None {
                assert(name@ =~= ascii_lower(Seq::<char>::empty()));
            }
        }
        if chars_eq_str(x, ".bashrc") || chars_eq_str(x, ".bash_profile") || chars_eq_str(x, ".profile")
            || chars_eq_str(x, "bashrc") || chars_eq_str(x, "bash_profile") {
            return Some(Grammar::Bash);
        }
        match file {
            None => None,
            Some(f) => match extension_of(&f) {
                None => None,
                Some(e) => grammar_for_extension_exec(&ascii_lower_chars(&e)),
            },
        }
    }

    pub fn name(self) -> (s: &'static str)
        ensures
            s@ == grammar_name(self),
    {
        match self {
            Grammar::Bash => "Bash",
            Grammar::C => "C",
            Grammar::Css => "CSS",
            Grammar::Go => "Go",
            Grammar::Html => "HTML",
            Grammar::JavaScript => "JavaScript",
            Grammar::Json => "JSON",
            Grammar::Python => "Python",
            Grammar::Rust => "Rust",
            Grammar::TypeScript => "TypeScript",
            Grammar::Tsx => "TSX",
            Grammar::Zig => "Zig",
        }
    }

    /// The tree-sitter language of this grammar, from its grammar crate.
    pub fn language(self) -> Language {
        match self {
            Grammar::Bash => bash_language(),
            Grammar::C => c_language(),
            Grammar::Css => css_language(),
            Grammar::Go => go_language(),
            Grammar::Html => html_language(),
            Grammar::JavaScript => javascript_language(),
            Grammar::Json => json_language(),
            Grammar::Python => python_language(),
            Grammar::Rust => rust_language(),
            Grammar::TypeScript => typescript_language(),
            Grammar::Tsx => tsx_language(),
            Grammar::Zig => zig_language(),
        }
    }
}

} // verus!
