//! What handling an event asks of the editor.
use vstd::prelude::*;
use crate::actions::Action;

verus! {

/// The outcome of handling an event: nothing to do (`Idle`), quitting, an action to apply,
/// or a command line to run.
#[derive(Debug)]
pub enum ControllerResult {
    Idle,
    Exit,
    Action(Action),
    Command(String),
}

} // verus!
