use dzed::treesitter::grammars::Grammar;
use dzed::treesitter::TreeSitterParser;

#[test]
fn detects_grammars_from_file_names() {
    let cases = [
        ("src/main.rs", Grammar::Rust),
        ("script.sh", Grammar::Bash),
        ("/home/user/.bashrc", Grammar::Bash),
        ("main.c", Grammar::C),
        ("style.CSS", Grammar::Css),
        ("main.go", Grammar::Go),
        ("index.html", Grammar::Html),
        ("app.jsx", Grammar::JavaScript),
        ("settings.json", Grammar::Json),
        ("types.pyi", Grammar::Python),
        ("app.ts", Grammar::TypeScript),
        ("component.tsx", Grammar::Tsx),
    ];

    for (path, expected) in cases {
        assert_eq!(Grammar::from_path(path), Some(expected), "{path}");
    }
    assert_eq!(Grammar::from_path("README"), None);
}

#[test]
fn every_built_in_grammar_loads() {
    for grammar in Grammar::ALL {
        if let Err(error) = TreeSitterParser::new(grammar) {
            panic!("{} grammar failed to load: {:?}", grammar.name(), error);
        }
    }
}

#[test]
fn path_edge_cases() {
    assert_eq!(Grammar::from_path(".profile"), Some(Grammar::Bash));
    assert_eq!(Grammar::from_path("dir/BASHRC"), Some(Grammar::Bash));
    assert_eq!(Grammar::from_path("lib.rs/"), Some(Grammar::Rust));
    assert_eq!(Grammar::from_path("a/b/./x.zig"), Some(Grammar::Zig));
    assert_eq!(Grammar::from_path("src/.."), None);
    assert_eq!(Grammar::from_path(".rs"), None);
    assert_eq!(Grammar::from_path("archive.tar.GZ"), None);
    assert_eq!(Grammar::from_path("x.h"), Some(Grammar::C));
    assert_eq!(Grammar::from_path(""), None);
}

#[test]
fn grammar_names() {
    assert_eq!(Grammar::Css.name(), "CSS");
    assert_eq!(Grammar::Tsx.name(), "TSX");
    assert_eq!(Grammar::ALL.len(), 12);
}
