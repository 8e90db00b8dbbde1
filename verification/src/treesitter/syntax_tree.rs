//! Parsing text with tree-sitter, and queries on the syntax tree: the node
//! at a byte, its parent, children and siblings, the enclosing scopes.
use vstd::prelude::*;
use crate::text_util::str_eq;
use crate::treesitter::grammars::Grammar;
use std::ops::Range;
use tree_sitter::{LanguageError, Parser, Query, QueryError, StreamingIterator, Tree};
use vstd::string::{StringExecFns, StringSliceAdditionalSpecFns};
use vstd::utf8::{encode_utf8, is_char_boundary};

verus! {

/// A syntax tree of the crate `tree-sitter`; opaque here.
#[verifier::external_type_specification]
#[verifier::external_body]
pub struct ExTree(tree_sitter::Tree);

/// A tree-sitter parser; opaque here.
#[verifier::external_type_specification]
#[verifier::external_body]
pub struct ExParser(tree_sitter::Parser);

/// tree-sitter's error for a grammar built for another version of the
/// library; opaque here.
#[verifier::external_type_specification]
#[verifier::external_body]
pub struct ExLanguageError(tree_sitter::LanguageError);

/// tree-sitter's error for a query that does not compile; opaque here.
#[verifier::external_type_specification]
#[verifier::external_body]
pub struct ExQueryError(tree_sitter::QueryError);

// ---------------------------------------------------------------------------
// Calls into tree-sitter. A syntax tree is named by its view, the grammar and
// the text it was parsed from: tree-sitter's parse, and every node it finds
// in it, depends on these alone.
// ---------------------------------------------------------------------------

/// `Parser::new`: a parser with no language.
#[verifier::external_body]
fn parser_new() -> Parser {
    Parser::new()
}

/// `Parser::set_language` with `tree_sitter_bash::LANGUAGE`. Trusted: the Bash grammar
/// was generated for language ABI 15 (its `src/parser.c`), and tree-sitter
/// 0.25 accepts ABI 13 to 15, so the call succeeds.
#[verifier::external_body]
fn set_bash_language(parser: &mut Parser) -> (r: Result<(), LanguageError>)
    ensures
        r is Ok,
{
    parser.set_language(&tree_sitter_bash::LANGUAGE.into())
}

/// `Parser::set_language` with `tree_sitter_c::LANGUAGE`. Trusted: the C grammar
/// was generated for language ABI 15 (its `src/parser.c`), and tree-sitter
/// 0.25 accepts ABI 13 to 15, so the call succeeds.
#[verifier::external_body]
fn set_c_language(parser: &mut Parser) -> (r: Result<(), LanguageError>)
    ensures
        r is Ok,
{
    parser.set_language(&tree_sitter_c::LANGUAGE.into())
}

/// `Parser::set_language` with `tree_sitter_css::LANGUAGE`. Trusted: the CSS grammar
/// was generated for language ABI 15 (its `src/parser.c`), and tree-sitter
/// 0.25 accepts ABI 13 to 15, so the call succeeds.
#[verifier::external_body]
fn set_css_language(parser: &mut Parser) -> (r: Result<(), LanguageError>)
    ensures
        r is Ok,
{
    parser.set_language(&tree_sitter_css::LANGUAGE.into())
}

/// `Parser::set_language` with `tree_sitter_go::LANGUAGE`. Trusted: the Go grammar
/// was generated for language ABI 15 (its `src/parser.c`), and tree-sitter
/// 0.25 accepts ABI 13 to 15, so the call succeeds.
#[verifier::external_body]
fn set_go_language(parser: &mut Parser) -> (r: Result<(), LanguageError>)
    ensures
        r is Ok,
{
    parser.set_language(&tree_sitter_go::LANGUAGE.into())
}

/// `Parser::set_language` with `tree_sitter_html::LANGUAGE`. Trusted: the HTML grammar
/// was generated for language ABI 14 (its `src/parser.c`), and tree-sitter
/// 0.25 accepts ABI 13 to 15, so the call succeeds.
#[verifier::external_body]
fn set_html_language(parser: &mut Parser) -> (r: Result<(), LanguageError>)
    ensures
        r is Ok,
{
    parser.set_language(&tree_sitter_html::LANGUAGE.into())
}

/// `Parser::set_language` with `tree_sitter_javascript::LANGUAGE`. Trusted: the JavaScript grammar
/// was generated for language ABI 15 (its `src/parser.c`), and tree-sitter
/// 0.25 accepts ABI 13 to 15, so the call succeeds.
#[verifier::external_body]
fn set_javascript_language(parser: &mut Parser) -> (r: Result<(), LanguageError>)
    ensures
        r is Ok,
{
    parser.set_language(&tree_sitter_javascript::LANGUAGE.into())
}

/// `Parser::set_language` with `tree_sitter_json::LANGUAGE`. Trusted: the JSON grammar
/// was generated for language ABI 14 (its `src/parser.c`), and tree-sitter
/// 0.25 accepts ABI 13 to 15, so the call succeeds.
#[verifier::external_body]
fn set_json_language(parser: &mut Parser) -> (r: Result<(), LanguageError>)
    ensures
        r is Ok,
{
    parser.set_language(&tree_sitter_json::LANGUAGE.into())
}

/// `Parser::set_language` with `tree_sitter_python::LANGUAGE`. Trusted: the Python grammar
/// was generated for language ABI 15 (its `src/parser.c`), and tree-sitter
/// 0.25 accepts ABI 13 to 15, so the call succeeds.
#[verifier::external_body]
fn set_python_language(parser: &mut Parser) -> (r: Result<(), LanguageError>)
    ensures
        r is Ok,
{
    parser.set_language(&tree_sitter_python::LANGUAGE.into())
}

/// `Parser::set_language` with `tree_sitter_rust::LANGUAGE`. Trusted: the Rust grammar
/// was generated for language ABI 15 (its `src/parser.c`), and tree-sitter
/// 0.25 accepts ABI 13 to 15, so the call succeeds.
#[verifier::external_body]
fn set_rust_language(parser: &mut Parser) -> (r: Result<(), LanguageError>)
    ensures
        r is Ok,
{
    parser.set_language(&tree_sitter_rust::LANGUAGE.into())
}

/// `Parser::set_language` with `tree_sitter_typescript::LANGUAGE_TYPESCRIPT`. Trusted: the TypeScript grammar
/// was generated for language ABI 14 (its `src/parser.c`), and tree-sitter
/// 0.25 accepts ABI 13 to 15, so the call succeeds.
#[verifier::external_body]
fn set_typescript_language(parser: &mut Parser) -> (r: Result<(), LanguageError>)
    ensures
        r is Ok,
{
    parser.set_language(&tree_sitter_typescript::LANGUAGE_TYPESCRIPT.into())
}

/// `Parser::set_language` with `tree_sitter_typescript::LANGUAGE_TSX`. Trusted: the TSX grammar
/// was generated for language ABI 14 (its `src/parser.c`), and tree-sitter
/// 0.25 accepts ABI 13 to 15, so the call succeeds.
#[verifier::external_body]
fn set_tsx_language(parser: &mut Parser) -> (r: Result<(), LanguageError>)
    ensures
        r is Ok,
{
    parser.set_language(&tree_sitter_typescript::LANGUAGE_TSX.into())
}

/// `Parser::set_language` with `tree_sitter_zig::LANGUAGE`. Trusted: the Zig grammar
/// was generated for language ABI 14 (its `src/parser.c`), and tree-sitter
/// 0.25 accepts ABI 13 to 15, so the call succeeds.
#[verifier::external_body]
fn set_zig_language(parser: &mut Parser) -> (r: Result<(), LanguageError>)
    ensures
        r is Ok,
{
    parser.set_language(&tree_sitter_zig::LANGUAGE.into())
}

/// `Parser::parse` on the bytes of `text`, reusing `old_tree`. Trusted:
/// `Parser::parse` returns `None` only for a parser without a language, after
/// a timeout or when a cancellation flag is raised; every `TreeSitterParser`
/// has its language set by `TreeSitterParser::new` and neither of the others.
#[verifier::external_body]
fn parser_parse(parser: &mut TreeSitterParser, text: &str, old_tree: Option<&Tree>) -> (r: Option<Tree>)
    ensures
        r is Some,
        final(parser).grammar_spec() == old(parser).grammar_spec(),
{
    parser.parser.parse(text, old_tree)
}

/// `Tree::clone`: a copy of the tree.
#[verifier::external_body]
fn tree_copy(tree: &Tree) -> Tree {
    tree.clone()
}

/// The root node of the parse `p`, described as the library describes nodes.
pub uninterp spec fn ts_root_node(p: (Grammar, Seq<char>)) -> NodeView;

/// Whether the parse `p` holds a syntax error, from `Node::has_error` on the root.
pub uninterp spec fn ts_has_error(p: (Grammar, Seq<char>)) -> bool;

/// The node of the parse `p` that `Node::named_descendant_for_byte_range`
/// (`named`) or `Node::descendant_for_byte_range` finds from the root for the
/// range `probe`, described; the root itself where `probe` is `None`.
pub uninterp spec fn ts_node(p: (Grammar, Seq<char>), probe: Option<(usize, usize)>, named: bool) -> Option<NodeView>;

/// `Node::parent` of the named node for `probe` (see [`ts_node`]).
pub uninterp spec fn ts_parent(p: (Grammar, Seq<char>), probe: Option<(usize, usize)>) -> Option<NodeView>;

/// `Node::named_child(0)` of the named node for `probe`.
pub uninterp spec fn ts_first_named_child(p: (Grammar, Seq<char>), probe: Option<(usize, usize)>) -> Option<NodeView>;

/// `Node::next_named_sibling` of the named node for `probe`.
pub uninterp spec fn ts_next_named_sibling(p: (Grammar, Seq<char>), probe: Option<(usize, usize)>) -> Option<NodeView>;

/// `Node::prev_named_sibling` of the named node for `probe`.
pub uninterp spec fn ts_prev_named_sibling(p: (Grammar, Seq<char>), probe: Option<(usize, usize)>) -> Option<NodeView>;

/// The named node for `probe` and the nodes that `Node::parent` reaches
/// from it, innermost first, each with the byte range of its `name` field
/// (`Node::child_by_field_name`).
pub uninterp spec fn ts_ancestors(p: (Grammar, Seq<char>), probe: Option<(usize, usize)>) -> Seq<(NodeView, Option<(usize, usize)>)>;

/// The rule of the root node, from `Node::kind`.
#[verifier::external_body]
fn root_kind_of(syntax: &SyntaxTree) -> (r: &'static str)
    ensures
        r@ == ts_root_node(syntax@).0,
{
    syntax.tree.root_node().kind()
}

/// `Node::has_error` of the root node.
#[verifier::external_body]
fn root_has_error(syntax: &SyntaxTree) -> (r: bool)
    ensures
        r == ts_has_error(syntax@),
{
    syntax.tree.root_node().has_error()
}

/// The end byte of the root node, from `Node::end_byte`. Trusted: the
/// result is `ts_root_node`'s end, and tree-sitter keeps offsets in 32 bits.
#[verifier::external_body]
fn root_end(syntax: &SyntaxTree) -> (r: usize)
    ensures
        r == ts_root_node(syntax@).3,
        r <= u32::MAX,
{
    syntax.tree.root_node().end_byte()
}

/// The node that `Node::named_descendant_for_byte_range` (`named`) or
/// `Node::descendant_for_byte_range` finds from the root for `probe`, or the
/// root for `None`, described. Trusted: for a well-ordered range the search
/// starts from the root itself and never gives the null node
/// (`ts_node__descendant_for_byte_range`); offsets and positions are `u32`.
#[verifier::external_body]
fn node_at_probe(syntax: &SyntaxTree, probe: Option<(usize, usize)>, named: bool) -> (r: Option<SyntaxNode>)
    ensures
        opt_node_view(r) == ts_node(syntax@, probe, named),
        probe is None ==> opt_node_view(r) == Some(ts_root_node(syntax@)),
        (probe matches Some((s, e)) && s <= e <= u32::MAX) ==> r is Some,
        r matches Some(n) ==> node_fits(&n),
{
    let root = syntax.tree.root_node();
    let node = match probe {
        Some((start, end)) if named => root.named_descendant_for_byte_range(start, end)?,
        Some((start, end)) => root.descendant_for_byte_range(start, end)?,
        None => root,
    };
    Some(SyntaxNode { kind: node.kind().to_string(), named: node.is_named(), byte_range: node.byte_range(),
        start_position: Point { row: node.start_position().row, column: node.start_position().column },
        end_position: Point { row: node.end_position().row, column: node.end_position().column } })
}

/// The parent of the node `node_at_probe(syntax, probe, true)` finds, from
/// `Node::parent()`, described; named by `ts_parent`.
#[verifier::external_body]
fn parent_at_probe(syntax: &SyntaxTree, probe: Option<(usize, usize)>) -> (r: Option<SyntaxNode>)
    ensures
        opt_node_view(r) == ts_parent(syntax@, probe),
        r matches Some(n) ==> node_fits(&n),
{
    let root = syntax.tree.root_node();
    let found = match probe {
        Some((start, end)) => root.named_descendant_for_byte_range(start, end),
        None => Some(root),
    };
    let node = found?.parent()?;
    Some(SyntaxNode { kind: node.kind().to_string(), named: node.is_named(), byte_range: node.byte_range(),
        start_position: Point { row: node.start_position().row, column: node.start_position().column },
        end_position: Point { row: node.end_position().row, column: node.end_position().column } })
}

/// The first named child of the node `node_at_probe(syntax, probe, true)` finds, from
/// `Node::named_child(0)`, described; named by `ts_first_named_child`.
#[verifier::external_body]
fn first_named_child_at_probe(syntax: &SyntaxTree, probe: Option<(usize, usize)>) -> (r: Option<SyntaxNode>)
    ensures
        opt_node_view(r) == ts_first_named_child(syntax@, probe),
        r matches Some(n) ==> node_fits(&n),
{
    let root = syntax.tree.root_node();
    let found = match probe {
        Some((start, end)) => root.named_descendant_for_byte_range(start, end),
        None => Some(root),
    };
    let node = found?.named_child(0)?;
    Some(SyntaxNode { kind: node.kind().to_string(), named: node.is_named(), byte_range: node.byte_range(),
        start_position: Point { row: node.start_position().row, column: node.start_position().column },
        end_position: Point { row: node.end_position().row, column: node.end_position().column } })
}

/// The next named sibling of the node `node_at_probe(syntax, probe, true)` finds, from
/// `Node::next_named_sibling()`, described; named by `ts_next_named_sibling`.
#[verifier::external_body]
fn next_named_sibling_at_probe(syntax: &SyntaxTree, probe: Option<(usize, usize)>) -> (r: Option<SyntaxNode>)
    ensures
        opt_node_view(r) == ts_next_named_sibling(syntax@, probe),
        r matches Some(n) ==> node_fits(&n),
{
    let root = syntax.tree.root_node();
    let found = match probe {
        Some((start, end)) => root.named_descendant_for_byte_range(start, end),
        None => Some(root),
    };
    let node = found?.next_named_sibling()?;
    Some(SyntaxNode { kind: node.kind().to_string(), named: node.is_named(), byte_range: node.byte_range(),
        start_position: Point { row: node.start_position().row, column: node.start_position().column },
        end_position: Point { row: node.end_position().row, column: node.end_position().column } })
}

/// The previous named sibling of the node `node_at_probe(syntax, probe, true)` finds, from
/// `Node::prev_named_sibling()`, described; named by `ts_prev_named_sibling`.
#[verifier::external_body]
fn prev_named_sibling_at_probe(syntax: &SyntaxTree, probe: Option<(usize, usize)>) -> (r: Option<SyntaxNode>)
    ensures
        opt_node_view(r) == ts_prev_named_sibling(syntax@, probe),
        r matches Some(n) ==> node_fits(&n),
{
    let root = syntax.tree.root_node();
    let found = match probe {
        Some((start, end)) => root.named_descendant_for_byte_range(start, end),
        None => Some(root),
    };
    let node = found?.prev_named_sibling()?;
    Some(SyntaxNode { kind: node.kind().to_string(), named: node.is_named(), byte_range: node.byte_range(),
        start_position: Point { row: node.start_position().row, column: node.start_position().column },
        end_position: Point { row: node.end_position().row, column: node.end_position().column } })
}

/// The named node for `probe` (the root for `None`) and the nodes that
/// `Node::parent` reaches from it, innermost first, described, each with the
/// byte range of its `name` field from `Node::child_by_field_name`. Trusted:
/// the first is the node `node_at_probe` finds, the chain of parents ends at
/// the root, and offsets are `u32`.
#[verifier::external_body]
fn ancestors_at_probe(syntax: &SyntaxTree, probe: Option<(usize, usize)>) -> (r: Vec<(SyntaxNode, Option<Range<usize>>)>)
    ensures
        ancestors_view(r@) == ts_ancestors(syntax@, probe),
        r@.len() >= 1 ==> Some(r@[0].0@) == ts_node(syntax@, probe, true),
        r@.len() >= 1 ==> r@.last().0@ == ts_root_node(syntax@),
        (probe is None || (probe matches Some((s, e)) && s <= e <= u32::MAX)) ==> r@.len() >= 1,
        forall|i: int| 0 <= i < r@.len() ==> node_fits(&(#[trigger] r@[i]).0),
{
    let root = syntax.tree.root_node();
    let mut current = match probe {
        Some((start, end)) => root.named_descendant_for_byte_range(start, end),
        None => Some(root),
    };
    let mut out = Vec::new();
    while let Some(node) = current {
        let name = node.child_by_field_name("name").map(|n| n.byte_range());
        out.push((SyntaxNode { kind: node.kind().to_string(), named: node.is_named(), byte_range: node.byte_range(),
        start_position: Point { row: node.start_position().row, column: node.start_position().column },
        end_position: Point { row: node.end_position().row, column: node.end_position().column } }, name));
        current = node.parent();
    }
    out
}

/// What running the query `source` over the parse `p` gives: `None` where
/// `Query::new` refuses the query for the grammar's language, else every
/// capture of every match a `QueryCursor` yields, in its order, as the
/// capture's index and the node described.
pub uninterp spec fn ts_query(p: (Grammar, Seq<char>), source: Seq<char>) -> Option<Seq<(u32, NodeView)>>;

/// The capture names of the query `source` for the grammar of `p`, from
/// `Query::capture_names`; empty where `Query::new` refuses it.
pub uninterp spec fn ts_query_names(p: (Grammar, Seq<char>), source: Seq<char>) -> Seq<Seq<char>>;

/// The captures `found` that have a name among `names`, with that name.
pub open spec fn named_captures(names: Seq<Seq<char>>, found: Seq<(u32, NodeView)>) -> Seq<(Seq<char>, NodeView)>
    decreases found.len(),
{
    if found.len() == 0 {
        Seq::empty()
    } else {
        let rest = named_captures(names, found.drop_last());
        let (k, n) = found.last();
        if (k as int) < names.len() {
            rest.push((names[k as int], n))
        } else {
            rest
        }
    }
}

/// The views of query results.
pub open spec fn captures_view(v: Seq<(u32, SyntaxNode)>) -> Seq<(u32, NodeView)> {
    v.map_values(|c: (u32, SyntaxNode)| (c.0, c.1@))
}

/// Compiles the query `query_source` for the tree's language (`Query::new`)
/// and runs it with a `QueryCursor` over the tree and the text it was parsed
/// from; named by `ts_query`. Trusted: offsets are `u32`.
#[verifier::external_body]
fn run_query(syntax: &SyntaxTree, query_source: &str) -> (r: Result<Vec<(u32, SyntaxNode)>, QueryError>)
    ensures
        match r {
            Ok(v) => ts_query(syntax@, query_source@) == Some(captures_view(v@)),
            Err(_) => ts_query(syntax@, query_source@) is None,
        },
        r matches Ok(v) ==> forall|i: int| 0 <= i < v@.len() ==> node_fits(&(#[trigger] v@[i]).1),
{
    let query = Query::new(&syntax.tree.language(), query_source)?;
    let mut cursor = tree_sitter::QueryCursor::new();
    let mut matches = cursor.matches(&query, syntax.tree.root_node(), syntax.text.as_bytes());
    let mut out = Vec::new();
    while let Some(found) = matches.next() {
        for capture in found.captures {
            let node = capture.node;
            out.push((capture.index, SyntaxNode { kind: node.kind().to_string(), named: node.is_named(), byte_range: node.byte_range(),
        start_position: Point { row: node.start_position().row, column: node.start_position().column },
        end_position: Point { row: node.end_position().row, column: node.end_position().column } }));
        }
    }
    Ok(out)
}

/// `Query::capture_names` of the query `query_source` compiled for the
/// tree's language, each as a `String`; named by `ts_query_names`.
#[verifier::external_body]
fn query_names(syntax: &SyntaxTree, query_source: &str) -> (r: Vec<String>)
    ensures
        r@.map_values(|n: String| n@) == ts_query_names(syntax@, query_source@),
{
    match Query::new(&syntax.tree.language(), query_source) {
        Ok(query) => query.capture_names().iter().map(|name| name.to_string()).collect(),
        Err(_) => Vec::new(),
    }
}

// ---------------------------------------------------------------------------
// Plain descriptions of nodes
// ---------------------------------------------------------------------------

/// A row and a column in the parsed text, both counted from zero.
#[derive(Debug, Clone, Copy, PartialEq, Eq, Structural)]
pub struct Point {
    pub row: usize,
    pub column: usize,
}

/// What the editor keeps of a node: its rule, whether it is named, and where
/// it lies.
#[derive(Debug, PartialEq, Eq)]
pub struct SyntaxNode {
    pub kind: String,
    pub named: bool,
    pub byte_range: Range<usize>,
    pub start_position: Point,
    pub end_position: Point,
}

/// A node that a query captured, with the capture's name.
#[derive(Debug, PartialEq, Eq)]
pub struct QueryCapture {
    pub name: String,
    pub node: SyntaxNode,
}

/// An enclosing definition: its rule, its name where it has one, and its
/// bytes.
#[derive(Debug, PartialEq, Eq)]
pub struct ScopeInfo {
    pub kind: String,
    pub name: Option<String>,
    pub byte_range: Range<usize>,
}

/// Whether the offsets and positions of a node description fit in 32 bits,
/// as tree-sitter keeps them.
pub open spec fn node_fits(n: &SyntaxNode) -> bool {
    &&& n.byte_range.start <= u32::MAX
    &&& n.byte_range.end <= u32::MAX
    &&& n.start_position.row <= u32::MAX
    &&& n.start_position.column <= u32::MAX
    &&& n.end_position.row <= u32::MAX
    &&& n.end_position.column <= u32::MAX
}

impl Clone for SyntaxNode {
    fn clone(&self) -> (c: SyntaxNode)
        ensures
            c.kind@ == self.kind@,
            c.named == self.named,
            c.byte_range.start == self.byte_range.start,
            c.byte_range.end == self.byte_range.end,
            c.start_position == self.start_position,
            c.end_position == self.end_position,
    {
        SyntaxNode {
            kind: self.kind.clone(),
            named: self.named,
            byte_range: Range { start: self.byte_range.start, end: self.byte_range.end },
            start_position: self.start_position,
            end_position: self.end_position,
        }
    }
}

impl Clone for QueryCapture {
    fn clone(&self) -> (c: QueryCapture)
        ensures
            c.name@ == self.name@,
            c.node.kind@ == self.node.kind@,
    {
        QueryCapture { name: self.name.clone(), node: self.node.clone() }
    }
}

impl Clone for ScopeInfo {
    fn clone(&self) -> (c: ScopeInfo)
        ensures
            c.kind@ == self.kind@,
            c.byte_range.start == self.byte_range.start,
            c.byte_range.end == self.byte_range.end,
    {
        let name = match &self.name {
            Some(n) => Some(n.clone()),
            None => None,
        };
        ScopeInfo {
            kind: self.kind.clone(),
            name,
            byte_range: Range { start: self.byte_range.start, end: self.byte_range.end },
        }
    }
}

/// Why parsing failed.
#[derive(Debug)]
pub enum ParseError {
    IncompatibleLanguage(LanguageError),
    Cancelled,
}

/// The `Display` text of a `LanguageError` (the grammar's version and the
/// versions this tree-sitter accepts); nothing is stated of it.
#[verifier::external_body]
fn language_error_text(e: &LanguageError) -> String {
    format!("{e}")
}

impl ParseError {
    /// The message for this error.
    pub fn to_string(&self) -> (s: String)
        ensures
            *self is Cancelled ==> s@ == "tree-sitter parsing was cancelled"@,
            *self is IncompatibleLanguage ==> exists|t: Seq<char>| s@ == "incompatible grammar: "@ + t,
    {
        match self {
            ParseError::IncompatibleLanguage(e) => {
                let mut s = String::from_str("incompatible grammar: ");
                let t = language_error_text(e);
                let ghost head = s@;
                s.append(t.as_str());
                proof {
                    assert(s@ == head + t@);
                }
                s
            },
            ParseError::Cancelled => String::from_str("tree-sitter parsing was cancelled"),
        }
    }
}

/// The byte range asked of the tree for `byte` in a text of `end` bytes:
/// the one byte at `byte`, clamped to the last byte; `None` for an empty
/// text, where the root itself is the answer.
pub open spec fn probe_range(byte: usize, end: usize) -> Option<(usize, usize)> {
    if end == 0 {
        None
    } else {
        let start = if byte < end - 1 { byte } else { (end - 1) as usize };
        Some((start, (start + 1) as usize))
    }
}

/// See [`probe_range`].
pub fn probe_range_exec(byte: usize, end: usize) -> (r: Option<(usize, usize)>)
    ensures
        r == probe_range(byte, end),
{
    if end == 0 {
        return None;
    }
    let last = end.saturating_sub(1);
    let start = if byte < last { byte } else { last };
    let stop = if start.saturating_add(1) < end { start.saturating_add(1) } else { end };
    Some((start, stop))
}

/// The rules that open a scope: definitions of functions, types, modules
/// and classes in the built-in grammars, and HTML and CSS containers.
pub open spec fn is_scope_kind(kind: Seq<char>) -> bool {
    kind == "function_item"@ || kind == "impl_item"@ || kind == "trait_item"@ || kind == "mod_item"@ || kind
        == "struct_item"@ || kind == "enum_item"@ || kind == "closure_expression"@ || kind
        == "function_definition"@ || kind == "function_declaration"@ || kind == "method_declaration"@
        || kind == "method_definition"@ || kind == "class_definition"@ || kind == "class_declaration"@
        || kind == "interface_declaration"@ || kind == "type_alias_declaration"@ || kind == "arrow_function"@
        || kind == "element"@ || kind == "rule_set"@
}

fn is_scope_kind_exec(kind: &str) -> (b: bool)
    ensures
        b == is_scope_kind(kind@),
{
    str_eq(kind, "function_item") || str_eq(kind, "impl_item") || str_eq(kind, "trait_item") || str_eq(
        kind,
        "mod_item",
    ) || str_eq(kind, "struct_item") || str_eq(kind, "enum_item") || str_eq(kind, "closure_expression")
        || str_eq(kind, "function_definition") || str_eq(kind, "function_declaration") || str_eq(
        kind,
        "method_declaration",
    ) || str_eq(kind, "method_definition") || str_eq(kind, "class_definition") || str_eq(
        kind,
        "class_declaration",
    ) || str_eq(kind, "interface_declaration") || str_eq(kind, "type_alias_declaration") || str_eq(
        kind,
        "arrow_function",
    ) || str_eq(kind, "element") || str_eq(kind, "rule_set")
}

/// Whether bytes `start..end` of `bytes` can be cut out as text: the range
/// lies in the bytes and both its ends are character boundaries.
pub open spec fn cuttable(bytes: Seq<u8>, start: int, end: int) -> bool {
    start <= end <= bytes.len() && is_char_boundary(bytes, end) && is_char_boundary(bytes.subrange(0, end), start)
}

/// The bytes `start..end` of `source` as a string, where both ends lie on
/// character boundaries; else empty.
fn byte_substring(source: &str, start: usize, end: usize) -> (r: String)
    ensures
        cuttable(source.spec_bytes(), start as int, end as int) ==> encode_utf8(r@) == source.spec_bytes().subrange(
            start as int,
            end as int,
        ),
        !cuttable(source.spec_bytes(), start as int, end as int) ==> r@.len() == 0,
{
    proof {
        vstd::utf8::encode_utf8_valid_utf8(source@);
    }
    if start > end || !source.is_char_boundary(end) {
        return String::new();
    }
    let (head, _) = source.split_at(end);
    proof {
        vstd::utf8::encode_utf8_valid_utf8(head@);
    }
    if !head.is_char_boundary(start) {
        return String::new();
    }
    let (_, piece) = head.split_at(start);
    String::from_str(piece)
}

/// The view of a node description: its rule, whether it is named, its
/// start and end bytes, and its start and end positions.
pub type NodeView = (Seq<char>, bool, usize, usize, Point, Point);

impl View for SyntaxNode {
    type V = NodeView;

    open spec fn view(&self) -> NodeView {
        (self.kind@, self.named, self.byte_range.start, self.byte_range.end, self.start_position, self.end_position)
    }
}

/// The view of a node description that may be missing.
pub open spec fn opt_node_view(n: Option<SyntaxNode>) -> Option<NodeView> {
    match n {
        Some(x) => Some(x@),
        None => None,
    }
}

/// A parsed text, the grammar it was parsed with, and tree-sitter's tree.
pub struct SyntaxTree {
    grammar: Grammar,
    text: String,
    tree: Tree,
}

impl View for SyntaxTree {
    type V = (Grammar, Seq<char>);

    /// The grammar and the text the tree was parsed from.
    closed spec fn view(&self) -> (Grammar, Seq<char>) {
        (self.grammar, self.text@)
    }
}

/// The views of the described nodes of an ancestor chain.
pub open spec fn ancestors_view(a: Seq<(SyntaxNode, Option<Range<usize>>)>) -> Seq<(NodeView, Option<(usize, usize)>)> {
    a.map_values(
        |x: (SyntaxNode, Option<Range<usize>>)|
            (
                x.0@,
                match x.1 {
                    Some(r) => Some((r.start, r.end)),
                    None => None,
                },
            ),
    )
}

/// The path from the root down to the innermost of `a`: the nodes of the
/// ancestor chain `a` in reverse.
pub open spec fn path_of(a: Seq<(NodeView, Option<(usize, usize)>)>) -> Seq<NodeView> {
    Seq::new(a.len(), |i: int| a[a.len() - 1 - i].0)
}

/// The first node of the ancestor chain `a` whose rule opens a scope.
pub open spec fn first_scope(a: Seq<(NodeView, Option<(usize, usize)>)>, i: int) -> Option<int>
    decreases a.len() - i,
{
    if i < 0 || i >= a.len() {
        None
    } else if is_scope_kind(a[i].0.0) {
        Some(i)
    } else {
        first_scope(a, i + 1)
    }
}

/// The probe for `byte` in the parse `p`; see [`probe_range`].
pub open spec fn probe_of(p: (Grammar, Seq<char>), byte: usize) -> Option<(usize, usize)> {
    probe_range(byte, ts_root_node(p).3)
}

/// Bytes past the end of a non-empty text are asked of the tree as its last
/// byte, so every node query at such a byte answers as at the last byte.
pub proof fn law_bytes_past_the_end_are_clamped(p: (Grammar, Seq<char>), byte: usize)
    requires
        ts_root_node(p).3 > 0,
        byte >= ts_root_node(p).3,
    ensures
        probe_of(p, byte) == probe_of(p, (ts_root_node(p).3 - 1) as usize),
        probe_of(p, byte) == Some(((ts_root_node(p).3 - 1) as usize, ts_root_node(p).3)),
{
}

proof fn lemma_first_scope_range(a: Seq<(NodeView, Option<(usize, usize)>)>, i: int)
    requires
        0 <= i,
    ensures
        first_scope(a, i) matches Some(k) ==> i <= k < a.len() && is_scope_kind(a[k].0.0) && forall|j: int|
            i <= j < k ==> !is_scope_kind(#[trigger] a[j].0.0),
        first_scope(a, i) is None ==> forall|j: int| i <= j < a.len() ==> !is_scope_kind(#[trigger] a[j].0.0),
    decreases a.len() - i,
{
    if i < a.len() && !is_scope_kind(a[i].0.0) {
        lemma_first_scope_range(a, i + 1);
    }
}

impl Clone for SyntaxTree {
    fn clone(&self) -> (c: SyntaxTree)
        ensures
            c@ == self@,
    {
        SyntaxTree { grammar: self.grammar, text: self.text.clone(), tree: tree_copy(&self.tree) }
    }
}

impl SyntaxTree {
    /// The grammar the tree was parsed with.
    pub closed spec fn grammar_spec(&self) -> Grammar {
        self.grammar
    }

    pub fn grammar(&self) -> (g: Grammar)
        ensures
            g == self.grammar_spec(),
            g == self@.0,
    {
        self.grammar
    }

    /// The tree-sitter tree this syntax tree holds.
    pub fn tree(&self) -> &Tree {
        &self.tree
    }

    /// The rule of the root node.
    pub fn root_kind(&self) -> (r: &'static str)
        ensures
            r@ == ts_root_node(self@).0,
    {
        root_kind_of(self)
    }

    /// Whether the tree holds a syntax error.
    pub fn has_error(&self) -> (r: bool)
        ensures
            r == ts_has_error(self@),
    {
        root_has_error(self)
    }

    /// The probe for `byte`: the byte clamped to the root's last byte.
    fn probe(&self, byte: usize) -> (r: Option<(usize, usize)>)
        ensures
            r == probe_of(self@, byte),
            r matches Some((s, e)) ==> s <= e <= u32::MAX,
    {
        probe_range_exec(byte, root_end(self))
    }

    /// The smallest node over the byte at `byte`, clamped to the last byte
    /// of the text; the root for an empty text.
    pub fn node_at_byte(&self, byte: usize) -> (r: Option<SyntaxNode>)
        ensures
            r is Some,
            opt_node_view(r) == ts_node(self@, probe_of(self@, byte), false),
            probe_of(self@, byte) is None ==> opt_node_view(r) == Some(ts_root_node(self@)),
            r matches Some(n) && node_fits(&n),
    {
        let probe = self.probe(byte);
        node_at_probe(self, probe, false)
    }

    /// The smallest named node over the byte at `byte`, clamped as for
    /// [`SyntaxTree::node_at_byte`].
    pub fn named_node_at_byte(&self, byte: usize) -> (r: Option<SyntaxNode>)
        ensures
            r is Some,
            opt_node_view(r) == ts_node(self@, probe_of(self@, byte), true),
            probe_of(self@, byte) is None ==> opt_node_view(r) == Some(ts_root_node(self@)),
            r matches Some(n) && node_fits(&n),
    {
        let probe = self.probe(byte);
        node_at_probe(self, probe, true)
    }

    /// The parent of the smallest named node over `byte`.
    pub fn parent_at_byte(&self, byte: usize) -> (r: Option<SyntaxNode>)
        ensures
            opt_node_view(r) == ts_parent(self@, probe_of(self@, byte)),
            r matches Some(n) ==> node_fits(&n),
    {
        let probe = self.probe(byte);
        parent_at_probe(self, probe)
    }

    /// The first named child of the smallest named node over `byte`.
    pub fn first_named_child_at_byte(&self, byte: usize) -> (r: Option<SyntaxNode>)
        ensures
            opt_node_view(r) == ts_first_named_child(self@, probe_of(self@, byte)),
            r matches Some(n) ==> node_fits(&n),
    {
        let probe = self.probe(byte);
        first_named_child_at_probe(self, probe)
    }

    /// The next named sibling of the smallest named node over `byte`.
    pub fn next_named_sibling_at_byte(&self, byte: usize) -> (r: Option<SyntaxNode>)
        ensures
            opt_node_view(r) == ts_next_named_sibling(self@, probe_of(self@, byte)),
            r matches Some(n) ==> node_fits(&n),
    {
        let probe = self.probe(byte);
        next_named_sibling_at_probe(self, probe)
    }

    /// The previous named sibling of the smallest named node over `byte`.
    pub fn previous_named_sibling_at_byte(&self, byte: usize) -> (r: Option<SyntaxNode>)
        ensures
            opt_node_view(r) == ts_prev_named_sibling(self@, probe_of(self@, byte)),
            r matches Some(n) ==> node_fits(&n),
    {
        let probe = self.probe(byte);
        prev_named_sibling_at_probe(self, probe)
    }

    /// The nodes from the root down to the smallest named node over `byte`,
    /// outermost first.
    pub fn scope_path_at_byte(&self, byte: usize) -> (r: Vec<SyntaxNode>)
        ensures
            r@.map_values(|n: SyntaxNode| n@) == path_of(ts_ancestors(self@, probe_of(self@, byte))),
            r@.len() >= 1,
            r@[0]@ == ts_root_node(self@),
            Some(r@.last()@) == ts_node(self@, probe_of(self@, byte), true),
            forall|i: int| 0 <= i < r@.len() ==> node_fits(&#[trigger] r@[i]),
    {
        let probe = self.probe(byte);
        let chain = ancestors_at_probe(self, probe);
        let ghost a = ancestors_view(chain@);
        let n = chain.len();
        let mut path: Vec<SyntaxNode> = Vec::new();
        let mut i: usize = n;
        while i > 0
            invariant
                i <= n,
                n == chain@.len(),
                a == ancestors_view(chain@),
                path@.len() == n - i,
                forall|j: int| 0 <= j < path@.len() ==> (#[trigger] path@[j])@ == a[n - 1 - j].0,
                forall|j: int| 0 <= j < chain@.len() ==> node_fits(&(#[trigger] chain@[j]).0),
                forall|j: int| 0 <= j < path@.len() ==> node_fits(&#[trigger] path@[j]),
            decreases i,
        {
            let node = chain[i - 1].0.clone();
            path.push(node);
            i = i - 1;
        }
        proof {
            assert(path@.map_values(|m: SyntaxNode| m@) =~= path_of(a));
            assert(path@[0]@ == a[n - 1].0);
            assert(path@.last()@ == a[0].0);
        }
        path
    }

    /// The innermost scope (see [`is_scope_kind`]) around the byte at
    /// `byte`, with the text of its `name` field cut from `source`; `None`
    /// where no scope encloses the byte.
    pub fn current_scope(&self, source: &str, byte: usize) -> (r: Option<ScopeInfo>)
        ensures
            ({
                let a = ts_ancestors(self@, probe_of(self@, byte));
                match first_scope(a, 0) {
                    None => r is None,
                    Some(k) => r matches Some(info) && info.kind@ == a[k].0.0 && info.byte_range.start == a[k].0.2
                        && info.byte_range.end == a[k].0.3 && match a[k].1 {
                        None => info.name is None,
                        Some((s, e)) => info.name matches Some(t) && (cuttable(source.spec_bytes(), s as int, e as int)
                            ==> encode_utf8(t@) == source.spec_bytes().subrange(s as int, e as int)) && (!cuttable(
                            source.spec_bytes(),
                            s as int,
                            e as int,
                        ) ==> t@.len() == 0),
                    },
                }
            }),
    {
        let probe = self.probe(byte);
        let chain = ancestors_at_probe(self, probe);
        let ghost a = ancestors_view(chain@);
        let mut i: usize = 0;
        while i < chain.len()
            invariant
                i <= chain@.len(),
                a == ancestors_view(chain@),
                a == ts_ancestors(self@, probe_of(self@, byte)),
                forall|j: int| 0 <= j < i ==> !is_scope_kind(#[trigger] a[j].0.0),
            decreases chain@.len() - i,
        {
            let node = &chain[i].0;
            if is_scope_kind_exec(node.kind.as_str()) {
                proof {
                    lemma_first_scope_range(a, 0);
                    assert(a[i as int].0 == chain@[i as int].0@);
                    assert(is_scope_kind(a[i as int].0.0));
                    match first_scope(a, 0) {
                        Some(k) => {
                            if k < i {
                                assert(!is_scope_kind(a[k].0.0));
                            } else if k > i {
                                assert(!is_scope_kind(a[i as int].0.0));
                            }
                        },
                        None => {
                            assert(!is_scope_kind(a[i as int].0.0));
                        },
                    }
                    assert(first_scope(a, 0) == Some(i as int));
                }
                let name = match &chain[i].1 {
                    Some(range) => Some(byte_substring(source, range.start, range.end)),
                    None => None,
                };
                return Some(
                    ScopeInfo {
                        kind: node.kind.clone(),
                        name,
                        byte_range: Range { start: node.byte_range.start, end: node.byte_range.end },
                    },
                );
            }
            i = i + 1;
        }
        proof {
            lemma_first_scope_range(a, 0);
            if first_scope(a, 0) is Some {
                let k = first_scope(a, 0)->0;
                assert(!is_scope_kind(a[k].0.0));
            }
        }
        None
    }

    /// Runs a tree-sitter query over the tree and lists every capture, named
    /// by the query's capture names. The query reads the text the tree was
    /// parsed from, which the tree keeps; `source` is that text.
    pub fn query(&self, source: &str, query_source: &str) -> (r: Result<Vec<QueryCapture>, QueryError>)
        ensures
            match r {
                Ok(caps) => ts_query(self@, query_source@) matches Some(found) && caps@.map_values(
                    |c: QueryCapture| (c.name@, c.node@),
                ) == named_captures(ts_query_names(self@, query_source@), found),
                Err(_) => ts_query(self@, query_source@) is None,
            },
            r matches Ok(caps) ==> forall|i: int| 0 <= i < caps@.len() ==> node_fits(&#[trigger] caps@[i].node),
    {
        let found = match run_query(self, query_source) {
            Ok(v) => v,
            Err(e) => return Err(e),
        };
        let names = query_names(self, query_source);
        let ghost nv = names@.map_values(|n: String| n@);
        let ghost fv = captures_view(found@);
        let mut captures: Vec<QueryCapture> = Vec::new();
        let mut i: usize = 0;
        while i < found.len()
            invariant
                i <= found@.len(),
                fv == captures_view(found@),
                nv == names@.map_values(|n: String| n@),
                captures@.map_values(|c: QueryCapture| (c.name@, c.node@)) == named_captures(nv, fv.take(i as int)),
                forall|j: int| 0 <= j < found@.len() ==> node_fits(&(#[trigger] found@[j]).1),
                forall|j: int| 0 <= j < captures@.len() ==> node_fits(&#[trigger] captures@[j].node),
            decreases found@.len() - i,
        {
            let k = found[i].0 as usize;
            let ghost before = captures@;
            if k < names.len() {
                captures.push(QueryCapture { name: names[k].clone(), node: found[i].1.clone() });
            }
            proof {
                assert(fv.take(i + 1) =~= fv.take(i as int).push(fv[i as int]));
                assert(fv.take(i + 1).drop_last() =~= fv.take(i as int));
                if k < names.len() {
                    assert(captures@ =~= before.push(captures@.last()));
                }
                assert(captures@.map_values(|c: QueryCapture| (c.name@, c.node@)) =~= named_captures(nv, fv.take(i + 1)));
            }
            i = i + 1;
        }
        proof {
            assert(fv.take(found@.len() as int) =~= fv);
        }
        Ok(captures)
    }
}

/// A parser set up for one grammar.
pub struct TreeSitterParser {
    parser: Parser,
    grammar: Grammar,
}

impl TreeSitterParser {
    /// The grammar this parser parses with.
    pub closed spec fn grammar_spec(&self) -> Grammar {
        self.grammar
    }

    /// A parser for `grammar`. Every built-in grammar was generated for a
    /// language version this tree-sitter accepts, so this succeeds.
    pub fn new(grammar: Grammar) -> (r: Result<TreeSitterParser, ParseError>)
        ensures
            r is Ok,
            r matches Ok(p) && p.grammar_spec() == grammar,
    {
        let mut parser = parser_new();
        let set = match grammar {
            Grammar::Bash => set_bash_language(&mut parser),
            Grammar::C => set_c_language(&mut parser),
            Grammar::Css => set_css_language(&mut parser),
            Grammar::Go => set_go_language(&mut parser),
            Grammar::Html => set_html_language(&mut parser),
            Grammar::JavaScript => set_javascript_language(&mut parser),
            Grammar::Json => set_json_language(&mut parser),
            Grammar::Python => set_python_language(&mut parser),
            Grammar::Rust => set_rust_language(&mut parser),
            Grammar::TypeScript => set_typescript_language(&mut parser),
            Grammar::Tsx => set_tsx_language(&mut parser),
            Grammar::Zig => set_zig_language(&mut parser),
        };
        match set {
            Ok(()) => Ok(TreeSitterParser { parser, grammar }),
            Err(e) => Err(ParseError::IncompatibleLanguage(e)),
        }
    }

    /// Parses `source`. An old tree of the same grammar and the same text is
    /// reused; parsing always succeeds, since the parser has its language
    /// and no timeout.
    pub fn parse(&mut self, source: &str, old_tree: Option<&SyntaxTree>) -> (r: Result<SyntaxTree, ParseError>)
        ensures
            r is Ok,
            r matches Ok(t) && t@ == (old(self).grammar_spec(), source@),
            final(self).grammar_spec() == old(self).grammar_spec(),
    {
        let reuse = match old_tree {
            Some(t) => if t.grammar == self.grammar && str_eq(t.text.as_str(), source) {
                Some(&t.tree)
            } else {
                None
            },
            None => None,
        };
        let grammar = self.grammar;
        match parser_parse(self, source, reuse) {
            Some(tree) => Ok(SyntaxTree { grammar, text: String::from_str(source), tree }),
            None => Err(ParseError::Cancelled),
        }
    }
}

} // verus!
