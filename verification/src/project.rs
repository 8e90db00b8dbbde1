//! Inlay hints, as a language server hands them to the editor.
use vstd::prelude::*;

verus! {

/// The label of an inlay hint.
#[derive(Debug)]
pub enum InlayHintLabel {
    String(String),
}

/// Whether a hint's details have been fetched.
#[derive(Debug, Clone, Copy, PartialEq, Eq, Structural)]
pub enum ResolveState {
    Resolved,
    Unresolved,
}

/// A hint shown inline in the text, such as an inferred type.
#[derive(Debug)]
pub struct InlayHint {
    pub label: InlayHintLabel,
    pub resolve_state: ResolveState,
    pub padding_left: bool,
    pub padding_right: bool,
    pub tooltip: Option<String>,
}

/// The text of a hint's label.
pub open spec fn label_text(label: InlayHintLabel) -> Seq<char> {
    match label {
        InlayHintLabel::String(s) => s@,
    }
}

impl InlayHint {
    /// The text the hint shows.
    pub fn text(&self) -> (t: String)
        ensures
            t@ == label_text(self.label),
    {
        match &self.label {
            InlayHintLabel::String(s) => s.clone(),
        }
    }
}

} // verus!
