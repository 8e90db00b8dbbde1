use dzed::treesitter::ParseError;
use dzed::treesitter::grammars::Grammar;
use dzed::treesitter::TreeSitterParser;

#[test]
fn parses_a_buffer_snapshot_without_flattening_it() {
    let source = "fn main() { let value = 42; }";
    let mut parser = TreeSitterParser::new(Grammar::Rust).unwrap();
    let syntax = parser.parse(source, None).unwrap();

    assert_eq!(syntax.root_kind(), "source_file");
    assert!(!syntax.has_error());

    let value_offset = source.find("value").unwrap();
    assert_eq!(syntax.named_node_at_byte(value_offset).unwrap().kind, "identifier");
    assert!(syntax.parent_at_byte(value_offset).is_some());

    let scope = syntax
        .current_scope(source, value_offset)
        .expect("cursor should be inside a function scope");
    assert_eq!(scope.kind, "function_item");
    assert_eq!(scope.name.as_deref(), Some("main"));

    let first_path = syntax.scope_path_at_byte(value_offset);
    let cached_path = syntax.scope_path_at_byte(value_offset);
    assert_eq!(first_path, cached_path);
    assert_eq!(first_path.last().unwrap().kind, "identifier");

    let captures = syntax
        .query(source, "(function_item name: (identifier) @function.name)")
        .unwrap();
    assert_eq!(captures.len(), 1);
    assert_eq!(captures[0].name, "function.name");
    assert_eq!(captures[0].node.kind, "identifier");
}

#[test]
fn byte_positions_past_the_end_are_clamped() {
    let source = "fn main() {}";
    let mut parser = TreeSitterParser::new(Grammar::Rust).unwrap();
    let syntax = parser.parse(source, None).unwrap();
    assert_eq!(syntax.grammar(), Grammar::Rust);
    let last = syntax.node_at_byte(source.len() - 1).unwrap();
    let beyond = syntax.node_at_byte(1000).unwrap();
    assert_eq!(last, beyond);
    assert_eq!(syntax.scope_path_at_byte(0).first().unwrap().kind, "source_file");
}

#[test]
fn reparsing_with_another_grammar_ignores_the_old_tree() {
    let mut rust = TreeSitterParser::new(Grammar::Rust).unwrap();
    let old = rust.parse("fn a() {}", None).unwrap();
    let mut json = TreeSitterParser::new(Grammar::Json).unwrap();
    let tree = json.parse("[1, 2]", Some(&old)).unwrap();
    assert_eq!(tree.grammar(), Grammar::Json);
    assert_eq!(tree.root_kind(), "document");
}

#[test]
fn siblings_and_children() {
    let source = "fn a() {}\nfn b() {}";
    let mut parser = TreeSitterParser::new(Grammar::Rust).unwrap();
    let syntax = parser.parse(source, None).unwrap();
    let offset = source.find("fn b").unwrap();
    let prev = syntax.previous_named_sibling_at_byte(offset);
    assert!(prev.is_none() || prev.unwrap().kind == "function_item");
    let child = syntax.first_named_child_at_byte(3);
    assert!(child.is_none() || child.unwrap().named);
    let next = syntax.next_named_sibling_at_byte(0);
    assert!(next.is_none() || next.unwrap().named);
}

#[test]
fn parse_errors_have_messages() {
    assert_eq!(ParseError::Cancelled.to_string(), "tree-sitter parsing was cancelled");
}

#[test]
fn an_empty_text_still_has_a_node_and_a_path() {
    let mut parser = TreeSitterParser::new(Grammar::Rust).unwrap();
    let syntax = parser.parse("", None).unwrap();
    let node = syntax.node_at_byte(0).expect("the root answers for an empty text");
    assert_eq!(node.kind, "source_file");
    assert!(syntax.named_node_at_byte(7).is_some());
    assert_eq!(syntax.scope_path_at_byte(0).len(), 1);
    assert!(syntax.current_scope("", 0).is_none());
}

#[test]
fn each_grammar_parses_with_its_own_language() {
    let cases = [
        (Grammar::Bash, "echo hi\n", "program"),
        (Grammar::C, "int x;\n", "translation_unit"),
        (Grammar::Css, "a { color: red; }\n", "stylesheet"),
        (Grammar::Go, "package main\n", "source_file"),
        (Grammar::Html, "<p>hi</p>\n", "document"),
        (Grammar::JavaScript, "let x = 1;\n", "program"),
        (Grammar::Json, "{}\n", "document"),
        (Grammar::Python, "x = 1\n", "module"),
        (Grammar::Rust, "fn f() {}\n", "source_file"),
        (Grammar::TypeScript, "let x: number = 1;\n", "program"),
        (Grammar::Tsx, "const a = <div />;\n", "program"),
        (Grammar::Zig, "const x = 1;\n", "source_file"),
    ];
    for (grammar, source, root) in cases {
        let mut parser = TreeSitterParser::new(grammar).unwrap();
        let tree = parser.parse(source, None).unwrap();
        assert_eq!(tree.root_kind(), root, "{:?}", grammar);
        assert!(!tree.has_error(), "{:?}", grammar);
    }
    let typed = "let x: number = 1;";
    let mut parser = TreeSitterParser::new(Grammar::TypeScript).unwrap();
    let tree = parser.parse(typed, None).unwrap();
    let at = typed.find("number").unwrap();
    assert_eq!(tree.named_node_at_byte(at).unwrap().kind, "predefined_type");
}

#[test]
fn queries_read_the_parsed_text() {
    let source = "fn main() { let value = 42; }";
    let mut parser = TreeSitterParser::new(Grammar::Rust).unwrap();
    let syntax = parser.parse(source, None).unwrap();
    let captures = syntax.query(source, "((identifier) @id (#eq? @id \"value\"))").unwrap();
    assert_eq!(captures.len(), 1);
    assert_eq!(captures[0].node.byte_range, 16..21);
}

#[test]
fn the_scope_path_runs_from_the_root_to_the_named_node() {
    let source = "fn main() { let value = 42; }";
    let mut parser = TreeSitterParser::new(Grammar::Rust).unwrap();
    let syntax = parser.parse(source, None).unwrap();
    for byte in [0, 5, 16, 28, 500] {
        let path = syntax.scope_path_at_byte(byte);
        assert_eq!(path[0].kind, syntax.root_kind());
        assert_eq!(path.last(), syntax.named_node_at_byte(byte).as_ref());
        for pair in path.windows(2) {
            assert!(pair[0].byte_range.start <= pair[1].byte_range.start);
            assert!(pair[1].byte_range.end <= pair[0].byte_range.end);
        }
    }
}

#[test]
fn reparsing_the_same_text_reuses_the_tree() {
    let source = "fn a() {}";
    let mut parser = TreeSitterParser::new(Grammar::Rust).unwrap();
    let first = parser.parse(source, None).unwrap();
    let second = parser.parse(source, Some(&first)).unwrap();
    assert_eq!(second.named_node_at_byte(3), first.named_node_at_byte(3));
    let other = parser.parse("struct S;", Some(&first)).unwrap();
    assert_eq!(other.named_node_at_byte(0).unwrap().kind, "struct_item");
}
