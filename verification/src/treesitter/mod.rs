//! Syntax trees from tree-sitter grammars.
pub mod grammars;
pub mod syntax_tree;

pub use syntax_tree::{ParseError, QueryCapture, ScopeInfo, SyntaxNode, SyntaxTree, TreeSitterParser};
