//! The editor's settings and screen state.
use vstd::prelude::*;

verus! {

/// Settings, and the state of the screen that views need.
#[derive(Clone, Copy, Debug, PartialEq, Eq, Structural)]
pub struct AppContext {
    pub use_colorscheme: bool,
    pub wrap: bool,
    pub syntax: bool,
    pub tree_sitter: bool,
    pub show_line_numbers: bool,
    pub fold: bool,
    pub fold_multiline_only: bool,
    pub screen_rows: i32,
    pub screen_cols: i32,
    pub focused_window: Option<usize>,
    pub should_redraw: bool,
    pub should_sync: bool,
}

} // verus!
