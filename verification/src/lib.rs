//! A modal terminal text editor's core: key handling, actions, clipboard,
//! text search, soft wrapping, folding and syntax-tree queries.
use vstd::prelude::*;

pub mod actions;
pub mod background;
pub mod buffer;
pub mod clipboard;
pub mod colorscheme;
pub mod command;
pub mod controller;
pub mod display_map;
pub mod document;
pub mod fold_map;
pub mod highlight;
pub mod input;
pub mod keymap;
pub mod keys;
pub mod layout;
pub mod movement;
pub mod point;
pub mod profiler;
pub mod search;
pub mod selections;
pub mod project;
pub mod render;
pub mod settings;
pub mod text_util;
pub mod theme;
pub mod treesitter;
pub mod wrap_map;

verus! {

} // verus!
