[package]
name = "dzed"
version = "0.1.0"
edition = "2021"
publish = false

[dependencies]
crossterm = "0.28"
serde = { version = "1", features = ["derive"] }
toml = "0.8"
syntect = "5.2"
onig = "6.4"
tree-sitter = "0.25"
tree-sitter-rust = "0.24"
tree-sitter-bash = "0.25"
tree-sitter-c = "0.24"
tree-sitter-css = "0.25"
tree-sitter-go = "0.25"
tree-sitter-html = "0.23"
tree-sitter-javascript = "0.25"
tree-sitter-json = "0.24"
tree-sitter-python = "0.25"
tree-sitter-typescript = "0.23"
tree-sitter-zig = "1.1"
