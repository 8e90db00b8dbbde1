//! The modes that cursor movement distinguishes.
use vstd::prelude::*;

verus! {

/// Whether a movement selects, and how.
#[allow(non_camel_case_types)]
#[derive(Debug, Clone, PartialEq, Eq, Structural)]
pub enum Mode {
    Normal,
    Insert,
    Visual,
    Visual_Line,
}

} // verus!
