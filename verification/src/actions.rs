//! Editor modes and the actions that key sequences resolve to.
use vstd::prelude::*;
use crate::text_util::{char_to_string, decimal_spec, u32_to_decimal};
use vstd::string::StringExecFns;

verus! {

/// The editing mode.
#[derive(Clone, Copy, Debug, PartialEq, Eq, Structural)]
pub enum Mode {
    Normal,
    Insert,
    Visual,
    VisualLine,
    VisualBlock,
    Command,
}

impl Mode {
    /// Whether this is one of the three visual modes.
    pub fn is_visual(&self) -> (b: bool)
        ensures
            b == (*self is Visual || *self is VisualLine || *self is VisualBlock),
    {
        match self {
            Mode::Visual | Mode::VisualLine | Mode::VisualBlock => true,
            _ => false,
        }
    }

    /// The name shown for this mode.
    pub fn name(&self) -> (s: &'static str)
        ensures
            s@ == mode_name_spec(*self),
    {
        match self {
            Mode::Normal => "Normal",
            Mode::Insert => "Insert",
            Mode::Visual => "Visual",
            Mode::VisualLine => "V-Line",
            Mode::VisualBlock => "V-Block",
            Mode::Command => "Command",
        }
    }
}

/// The name shown for a mode.
pub open spec fn mode_name_spec(m: Mode) -> Seq<char> {
    match m {
        Mode::Normal => "Normal"@,
        Mode::Insert => "Insert"@,
        Mode::Visual => "Visual"@,
        Mode::VisualLine => "V-Line"@,
        Mode::VisualBlock => "V-Block"@,
        Mode::Command => "Command"@,
    }
}

/// An editing action, with its repeat count and its options.
#[derive(Debug, PartialEq, Eq)]
pub enum Action {
    NoOp,
    Clear,
    Delete { count: u32 },
    Change { count: u32 },
    Yank { count: u32 },
    StandBy { count: u32, select: bool },
    MoveLeft { count: u32, select: bool },
    MoveRight { count: u32, select: bool },
    MoveUp { count: u32, select: bool },
    MoveDown { count: u32, select: bool },
    MovePageUp { count: u32, select: bool },
    MovePageDown { count: u32, select: bool },
    MoveToWord { count: u32, select: bool },
    MoveToPreviousWord { count: u32, select: bool },
    MoveToWordEnd { count: u32, select: bool },
    MoveToPreviousWordEnd { count: u32, select: bool },
    MoveToBigWord { count: u32, select: bool },
    MoveToPreviousBigWord { count: u32, select: bool },
    MoveToBigWordEnd { count: u32, select: bool },
    MoveToStartOfDocument { count: u32, select: bool },
    MoveToEndOfDocument { count: u32, select: bool },
    MoveToStartOfLine { count: u32, select: bool },
    MoveToStartOfLineNonSpace { count: u32, select: bool },
    MoveToEndOfLine { count: u32, select: bool },
    MoveToStartOfPreviousLine { count: u32, select: bool },
    MoveToEndOfPreviousLine { count: u32, select: bool },
    MoveToStartOfNextLine { count: u32, select: bool },
    MoveToEndOfNextLine { count: u32, select: bool },
    MoveToScreenTop { count: u32, select: bool },
    MoveToScreenMiddle { count: u32, select: bool },
    MoveToScreenBottom { count: u32, select: bool },
    MoveToPreviousParagraph { count: u32, select: bool },
    MoveToNextParagraph { count: u32, select: bool },
    MoveToPreviousSentence { count: u32, select: bool },
    MoveToNextSentence { count: u32, select: bool },
    MoveToNextCharacter { count: u32, ch: char, select: bool },
    MoveToPreviousCharacter { count: u32, ch: char, select: bool },
    MoveWithinCharacter { count: u32, ch: char },
    MoveAroundCharacter { count: u32, ch: char },
    ScrollForward { count: u32 },
    ScrollBackward { count: u32 },
    ScrollHalfPageDown { count: u32 },
    ScrollHalfPageUp { count: u32 },
    ScrollLineDown { count: u32 },
    ScrollLineUp { count: u32 },
    MoveToColumn { count: u32 },
    SearchForward { count: u32 },
    SearchBackward { count: u32 },
    SearchNext { count: u32 },
    SearchPrevious { count: u32 },
    DeleteMotion { count: u32, motion: Box<Action> },
    ChangeMotion { count: u32, motion: Box<Action> },
    YankMotion { count: u32, motion: Box<Action> },
    DeleteLine { count: u32 },
    ChangeLine { count: u32 },
    YankLine { count: u32 },
    JoinLines { count: u32 },
    DeleteChar { count: u32 },
    DeleteCharBefore { count: u32 },
    Put { count: u32 },
    PutBefore { count: u32 },
    Undo { count: u32 },
    Redo { count: u32 },
    Repeat { count: u32 },
    Indent { count: u32 },
    Outdent { count: u32 },
    ChangeCase { count: u32 },
    SetToNormal,
    SetToInsert,
    SetToVisual,
    SetToVisualLine,
    SetToVisualBlock,
    SetToCommand,
    InsertNewLine { count: u32 },
    InsertText(String),
    InsertNewLineMotion { count: u32, motion: Box<Action> },
    InsertTab,
}

impl Clone for Action {
    fn clone(&self) -> (c: Self)
        ensures
            c == *self,
        decreases self,
    {
        match self {
            Action::NoOp => Action::NoOp,
            Action::Clear => Action::Clear,
            Action::Delete { count } => Action::Delete { count: *count },
            Action::Change { count } => Action::Change { count: *count },
            Action::Yank { count } => Action::Yank { count: *count },
            Action::StandBy { count, select } => Action::StandBy { count: *count, select: *select },
            Action::MoveLeft { count, select } => Action::MoveLeft { count: *count, select: *select },
            Action::MoveRight { count, select } => Action::MoveRight { count: *count, select: *select },
            Action::MoveUp { count, select } => Action::MoveUp { count: *count, select: *select },
            Action::MoveDown { count, select } => Action::MoveDown { count: *count, select: *select },
            Action::MovePageUp { count, select } => Action::MovePageUp { count: *count, select: *select },
            Action::MovePageDown { count, select } => Action::MovePageDown { count: *count, select: *select },
            Action::MoveToWord { count, select } => Action::MoveToWord { count: *count, select: *select },
            Action::MoveToPreviousWord { count, select } => Action::MoveToPreviousWord { count: *count, select: *select },
            Action::MoveToWordEnd { count, select } => Action::MoveToWordEnd { count: *count, select: *select },
            Action::MoveToPreviousWordEnd { count, select } => Action::MoveToPreviousWordEnd { count: *count, select: *select },
            Action::MoveToBigWord { count, select } => Action::MoveToBigWord { count: *count, select: *select },
            Action::MoveToPreviousBigWord { count, select } => Action::MoveToPreviousBigWord { count: *count, select: *select },
            Action::MoveToBigWordEnd { count, select } => Action::MoveToBigWordEnd { count: *count, select: *select },
            Action::MoveToStartOfDocument { count, select } => Action::MoveToStartOfDocument { count: *count, select: *select },
            Action::MoveToEndOfDocument { count, select } => Action::MoveToEndOfDocument { count: *count, select: *select },
            Action::MoveToStartOfLine { count, select } => Action::MoveToStartOfLine { count: *count, select: *select },
            Action::MoveToStartOfLineNonSpace { count, select } => Action::MoveToStartOfLineNonSpace { count: *count, select: *select },
            Action::MoveToEndOfLine { count, select } => Action::MoveToEndOfLine { count: *count, select: *select },
            Action::MoveToStartOfPreviousLine { count, select } => Action::MoveToStartOfPreviousLine { count: *count, select: *select },
            Action::MoveToEndOfPreviousLine { count, select } => Action::MoveToEndOfPreviousLine { count: *count, select: *select },
            Action::MoveToStartOfNextLine { count, select } => Action::MoveToStartOfNextLine { count: *count, select: *select },
            Action::MoveToEndOfNextLine { count, select } => Action::MoveToEndOfNextLine { count: *count, select: *select },
            Action::MoveToScreenTop { count, select } => Action::MoveToScreenTop { count: *count, select: *select },
            Action::MoveToScreenMiddle { count, select } => Action::MoveToScreenMiddle { count: *count, select: *select },
            Action::MoveToScreenBottom { count, select } => Action::MoveToScreenBottom { count: *count, select: *select },
            Action::MoveToPreviousParagraph { count, select } => Action::MoveToPreviousParagraph { count: *count, select: *select },
            Action::MoveToNextParagraph { count, select } => Action::MoveToNextParagraph { count: *count, select: *select },
            Action::MoveToPreviousSentence { count, select } => Action::MoveToPreviousSentence { count: *count, select: *select },
            Action::MoveToNextSentence { count, select } => Action::MoveToNextSentence { count: *count, select: *select },
            Action::MoveToNextCharacter { count, ch, select } => Action::MoveToNextCharacter { count: *count, ch: *ch, select: *select },
            Action::MoveToPreviousCharacter { count, ch, select } => Action::MoveToPreviousCharacter { count: *count, ch: *ch, select: *select },
            Action::MoveWithinCharacter { count, ch } => Action::MoveWithinCharacter { count: *count, ch: *ch },
            Action::MoveAroundCharacter { count, ch } => Action::MoveAroundCharacter { count: *count, ch: *ch },
            Action::ScrollForward { count } => Action::ScrollForward { count: *count },
            Action::ScrollBackward { count } => Action::ScrollBackward { count: *count },
            Action::ScrollHalfPageDown { count } => Action::ScrollHalfPageDown { count: *count },
            Action::ScrollHalfPageUp { count } => Action::ScrollHalfPageUp { count: *count },
            Action::ScrollLineDown { count } => Action::ScrollLineDown { count: *count },
            Action::ScrollLineUp { count } => Action::ScrollLineUp { count: *count },
            Action::MoveToColumn { count } => Action::MoveToColumn { count: *count },
            Action::SearchForward { count } => Action::SearchForward { count: *count },
            Action::SearchBackward { count } => Action::SearchBackward { count: *count },
            Action::SearchNext { count } => Action::SearchNext { count: *count },
            Action::SearchPrevious { count } => Action::SearchPrevious { count: *count },
            Action::DeleteMotion { count, motion } => Action::DeleteMotion { count: *count, motion: Box::new((**motion).clone()) },
            Action::ChangeMotion { count, motion } => Action::ChangeMotion { count: *count, motion: Box::new((**motion).clone()) },
            Action::YankMotion { count, motion } => Action::YankMotion { count: *count, motion: Box::new((**motion).clone()) },
            Action::DeleteLine { count } => Action::DeleteLine { count: *count },
            Action::ChangeLine { count } => Action::ChangeLine { count: *count },
            Action::YankLine { count } => Action::YankLine { count: *count },
            Action::JoinLines { count } => Action::JoinLines { count: *count },
            Action::DeleteChar { count } => Action::DeleteChar { count: *count },
            Action::DeleteCharBefore { count } => Action::DeleteCharBefore { count: *count },
            Action::Put { count } => Action::Put { count: *count },
            Action::PutBefore { count } => Action::PutBefore { count: *count },
            Action::Undo { count } => Action::Undo { count: *count },
            Action::Redo { count } => Action::Redo { count: *count },
            Action::Repeat { count } => Action::Repeat { count: *count },
            Action::Indent { count } => Action::Indent { count: *count },
            Action::Outdent { count } => Action::Outdent { count: *count },
            Action::ChangeCase { count } => Action::ChangeCase { count: *count },
            Action::SetToNormal => Action::SetToNormal,
            Action::SetToInsert => Action::SetToInsert,
            Action::SetToVisual => Action::SetToVisual,
            Action::SetToVisualLine => Action::SetToVisualLine,
            Action::SetToVisualBlock => Action::SetToVisualBlock,
            Action::SetToCommand => Action::SetToCommand,
            Action::InsertNewLine { count } => Action::InsertNewLine { count: *count },
            Action::InsertText(s) => Action::InsertText(s.clone()),
            Action::InsertNewLineMotion { count, motion } => Action::InsertNewLineMotion { count: *count, motion: Box::new((**motion).clone()) },
            Action::InsertTab => Action::InsertTab,
        }
    }
}

/// The action with its selection flag set; only the stand-by and the four
/// arrow motions carry one, every other action becomes `NoOp`.
pub open spec fn with_select_spec(a: Action, select: bool) -> Action {
    match a {
        Action::StandBy { count, .. } => Action::StandBy { count, select },
        Action::MoveLeft { count, .. } => Action::MoveLeft { count, select },
        Action::MoveRight { count, .. } => Action::MoveRight { count, select },
        Action::MoveUp { count, .. } => Action::MoveUp { count, select },
        Action::MoveDown { count, .. } => Action::MoveDown { count, select },
        _ => Action::NoOp,
    }
}

/// The action with its repeat count replaced: selection is cleared and a
/// target character is reset to `'?'`; actions without a count are unchanged.
pub open spec fn with_count_spec(a: Action, count: u32) -> Action {
    match a {
        Action::NoOp => Action::NoOp,
        Action::Clear => Action::Clear,
        Action::Delete { .. } => Action::Delete { count },
        Action::Change { .. } => Action::Change { count },
        Action::Yank { .. } => Action::Yank { count },
        Action::StandBy { .. } => Action::StandBy { count, select: false },
        Action::MoveLeft { .. } => Action::MoveLeft { count, select: false },
        Action::MoveRight { .. } => Action::MoveRight { count, select: false },
        Action::MoveUp { .. } => Action::MoveUp { count, select: false },
        Action::MoveDown { .. } => Action::MoveDown { count, select: false },
        Action::MovePageUp { .. } => Action::MovePageUp { count, select: false },
        Action::MovePageDown { .. } => Action::MovePageDown { count, select: false },
        Action::MoveToWord { .. } => Action::MoveToWord { count, select: false },
        Action::MoveToPreviousWord { .. } => Action::MoveToPreviousWord { count, select: false },
        Action::MoveToWordEnd { .. } => Action::MoveToWordEnd { count, select: false },
        Action::MoveToPreviousWordEnd { .. } => Action::MoveToPreviousWordEnd { count, select: false },
        Action::MoveToBigWord { .. } => Action::MoveToBigWord { count, select: false },
        Action::MoveToPreviousBigWord { .. } => Action::MoveToPreviousBigWord { count, select: false },
        Action::MoveToBigWordEnd { .. } => Action::MoveToBigWordEnd { count, select: false },
        Action::MoveToStartOfDocument { .. } => Action::MoveToStartOfDocument { count, select: false },
        Action::MoveToEndOfDocument { .. } => Action::MoveToEndOfDocument { count, select: false },
        Action::MoveToStartOfLine { .. } => Action::MoveToStartOfLine { count, select: false },
        Action::MoveToStartOfLineNonSpace { .. } => Action::MoveToStartOfLineNonSpace { count, select: false },
        Action::MoveToEndOfLine { .. } => Action::MoveToEndOfLine { count, select: false },
        Action::MoveToStartOfPreviousLine { .. } => Action::MoveToStartOfPreviousLine { count, select: false },
        Action::MoveToEndOfPreviousLine { .. } => Action::MoveToEndOfPreviousLine { count, select: false },
        Action::MoveToStartOfNextLine { .. } => Action::MoveToStartOfNextLine { count, select: false },
        Action::MoveToEndOfNextLine { .. } => Action::MoveToEndOfNextLine { count, select: false },
        Action::MoveToScreenTop { .. } => Action::MoveToScreenTop { count, select: false },
        Action::MoveToScreenMiddle { .. } => Action::MoveToScreenMiddle { count, select: false },
        Action::MoveToScreenBottom { .. } => Action::MoveToScreenBottom { count, select: false },
        Action::MoveToPreviousParagraph { .. } => Action::MoveToPreviousParagraph { count, select: false },
        Action::MoveToNextParagraph { .. } => Action::MoveToNextParagraph { count, select: false },
        Action::MoveToPreviousSentence { .. } => Action::MoveToPreviousSentence { count, select: false },
        Action::MoveToNextSentence { .. } => Action::MoveToNextSentence { count, select: false },
        Action::MoveToNextCharacter { .. } => Action::MoveToNextCharacter { count, ch: '?', select: false },
        Action::MoveToPreviousCharacter { .. } => Action::MoveToPreviousCharacter { count, ch: '?', select: false },
        Action::MoveWithinCharacter { .. } => Action::MoveWithinCharacter { count, ch: '?' },
        Action::MoveAroundCharacter { .. } => Action::MoveAroundCharacter { count, ch: '?' },
        Action::ScrollForward { .. } => Action::ScrollForward { count },
        Action::ScrollBackward { .. } => Action::ScrollBackward { count },
        Action::ScrollHalfPageDown { .. } => Action::ScrollHalfPageDown { count },
        Action::ScrollHalfPageUp { .. } => Action::ScrollHalfPageUp { count },
        Action::ScrollLineDown { .. } => Action::ScrollLineDown { count },
        Action::ScrollLineUp { .. } => Action::ScrollLineUp { count },
        Action::MoveToColumn { .. } => Action::MoveToColumn { count },
        Action::SearchForward { .. } => Action::SearchForward { count },
        Action::SearchBackward { .. } => Action::SearchBackward { count },
        Action::SearchNext { .. } => Action::SearchNext { count },
        Action::SearchPrevious { .. } => Action::SearchPrevious { count },
        Action::DeleteMotion { motion, .. } => Action::DeleteMotion { count, motion },
        Action::ChangeMotion { motion, .. } => Action::ChangeMotion { count, motion },
        Action::YankMotion { motion, .. } => Action::YankMotion { count, motion },
        Action::DeleteLine { .. } => Action::DeleteLine { count },
        Action::ChangeLine { .. } => Action::ChangeLine { count },
        Action::YankLine { .. } => Action::YankLine { count },
        Action::JoinLines { .. } => Action::JoinLines { count },
        Action::DeleteChar { .. } => Action::DeleteChar { count },
        Action::DeleteCharBefore { .. } => Action::DeleteCharBefore { count },
        Action::Put { .. } => Action::Put { count },
        Action::PutBefore { .. } => Action::PutBefore { count },
        Action::Undo { .. } => Action::Undo { count },
        Action::Redo { .. } => Action::Redo { count },
        Action::Repeat { .. } => Action::Repeat { count },
        Action::Indent { .. } => Action::Indent { count },
        Action::Outdent { .. } => Action::Outdent { count },
        Action::ChangeCase { .. } => Action::ChangeCase { count },
        Action::SetToNormal => Action::SetToNormal,
        Action::SetToInsert => Action::SetToInsert,
        Action::SetToVisual => Action::SetToVisual,
        Action::SetToVisualLine => Action::SetToVisualLine,
        Action::SetToVisualBlock => Action::SetToVisualBlock,
        Action::SetToCommand => Action::SetToCommand,
        Action::InsertNewLine { .. } => Action::InsertNewLine { count },
        Action::InsertText(s) => Action::InsertText(s),
        Action::InsertNewLineMotion { motion, .. } => Action::InsertNewLineMotion { count, motion },
        Action::InsertTab => Action::InsertTab,
    }
}

/// The repeat count of an action; actions without one count once.
pub open spec fn count_spec(a: Action) -> u32 {
    match a {
        Action::Delete { count, .. } => count,
        Action::Change { count, .. } => count,
        Action::Yank { count, .. } => count,
        Action::MoveLeft { count, .. } => count,
        Action::MoveRight { count, .. } => count,
        Action::MoveUp { count, .. } => count,
        Action::MoveDown { count, .. } => count,
        Action::MovePageUp { count, .. } => count,
        Action::MovePageDown { count, .. } => count,
        Action::MoveToWord { count, .. } => count,
        Action::MoveToPreviousWord { count, .. } => count,
        Action::MoveToWordEnd { count, .. } => count,
        Action::MoveToPreviousWordEnd { count, .. } => count,
        Action::MoveToBigWord { count, .. } => count,
        Action::MoveToPreviousBigWord { count, .. } => count,
        Action::MoveToBigWordEnd { count, .. } => count,
        Action::MoveToStartOfDocument { count, .. } => count,
        Action::MoveToEndOfDocument { count, .. } => count,
        Action::MoveToStartOfLine { count, .. } => count,
        Action::MoveToStartOfLineNonSpace { count, .. } => count,
        Action::MoveToEndOfLine { count, .. } => count,
        Action::MoveToStartOfPreviousLine { count, .. } => count,
        Action::MoveToEndOfPreviousLine { count, .. } => count,
        Action::MoveToStartOfNextLine { count, .. } => count,
        Action::MoveToEndOfNextLine { count, .. } => count,
        Action::MoveToScreenTop { count, .. } => count,
        Action::MoveToScreenMiddle { count, .. } => count,
        Action::MoveToScreenBottom { count, .. } => count,
        Action::MoveToPreviousParagraph { count, .. } => count,
        Action::MoveToNextParagraph { count, .. } => count,
        Action::MoveToPreviousSentence { count, .. } => count,
        Action::MoveToNextSentence { count, .. } => count,
        Action::ScrollForward { count, .. } => count,
        Action::ScrollBackward { count, .. } => count,
        Action::ScrollHalfPageDown { count, .. } => count,
        Action::ScrollHalfPageUp { count, .. } => count,
        Action::ScrollLineDown { count, .. } => count,
        Action::ScrollLineUp { count, .. } => count,
        Action::MoveToColumn { count, .. } => count,
        Action::SearchForward { count, .. } => count,
        Action::SearchBackward { count, .. } => count,
        Action::SearchNext { count, .. } => count,
        Action::SearchPrevious { count, .. } => count,
        Action::DeleteMotion { count, .. } => count,
        Action::ChangeMotion { count, .. } => count,
        Action::YankMotion { count, .. } => count,
        Action::DeleteLine { count, .. } => count,
        Action::ChangeLine { count, .. } => count,
        Action::YankLine { count, .. } => count,
        Action::JoinLines { count, .. } => count,
        Action::DeleteChar { count, .. } => count,
        Action::DeleteCharBefore { count, .. } => count,
        Action::Put { count, .. } => count,
        Action::PutBefore { count, .. } => count,
        Action::Undo { count, .. } => count,
        Action::Redo { count, .. } => count,
        Action::Repeat { count, .. } => count,
        Action::Indent { count, .. } => count,
        Action::Outdent { count, .. } => count,
        Action::ChangeCase { count, .. } => count,
        Action::InsertNewLine { count, .. } => count,
        Action::InsertNewLineMotion { count, .. } => count,
        _ => 1,
    }
}

/// The text shown for an action.
pub open spec fn display_spec(a: Action) -> Seq<char>
    decreases a,
{
    match a {
        Action::NoOp => "None"@,
        Action::Clear => "Clear"@,
        Action::Delete { count } => "Delete("@ + decimal_spec(count) + ")"@,
        Action::Change { count } => "Change("@ + decimal_spec(count) + ")"@,
        Action::Yank { count } => "Yank("@ + decimal_spec(count) + ")"@,
        Action::StandBy { count, select } => "StandBy("@ + decimal_spec(count) + ")"@,
        Action::MoveLeft { count, select } => "MoveLeft("@ + decimal_spec(count) + ")"@,
        Action::MoveRight { count, select } => "MoveRight("@ + decimal_spec(count) + ")"@,
        Action::MoveUp { count, select } => "MoveUp("@ + decimal_spec(count) + ")"@,
        Action::MoveDown { count, select } => "MoveDown("@ + decimal_spec(count) + ")"@,
        Action::MovePageUp { count, select } => "MovePageUp("@ + decimal_spec(count) + ")"@,
        Action::MovePageDown { count, select } => "MovePageDown("@ + decimal_spec(count) + ")"@,
        Action::MoveToWord { count, select } => "MoveToWord("@ + decimal_spec(count) + ")"@,
        Action::MoveToPreviousWord { count, select } => "MoveToPreviousWord("@ + decimal_spec(count) + ")"@,
        Action::MoveToWordEnd { count, select } => "MoveToWordEnd("@ + decimal_spec(count) + ")"@,
        Action::MoveToPreviousWordEnd { count, select } => "MoveToPreviousWordEnd("@ + decimal_spec(count) + ")"@,
        Action::MoveToBigWord { count, select } => "MoveToBigWord("@ + decimal_spec(count) + ")"@,
        Action::MoveToPreviousBigWord { count, select } => "MoveToPrevBigWord("@ + decimal_spec(count) + ")"@,
        Action::MoveToBigWordEnd { count, select } => "MoveToBigWordEnd("@ + decimal_spec(count) + ")"@,
        Action::MoveToStartOfDocument { count, select } => "MoveToStartOfDoc("@ + decimal_spec(count) + ")"@,
        Action::MoveToEndOfDocument { count, select } => "MoveToEndOfDoc("@ + decimal_spec(count) + ")"@,
        Action::MoveToStartOfLine { count, select } => "MoveToStartOfLine("@ + decimal_spec(count) + ")"@,
        Action::MoveToStartOfLineNonSpace { count, select } => "MoveToStartOfLineNonSpace("@ + decimal_spec(count) + ")"@,
        Action::MoveToEndOfLine { count, select } => "MoveToEndOfLine("@ + decimal_spec(count) + ")"@,
        Action::MoveToStartOfPreviousLine { count, select } => "MoveToStartOfPrevLine("@ + decimal_spec(count) + ")"@,
        Action::MoveToEndOfPreviousLine { count, select } => "MoveToEndOfPrevLine("@ + decimal_spec(count) + ")"@,
        Action::MoveToStartOfNextLine { count, select } => "MoveToStartOfNextLine("@ + decimal_spec(count) + ")"@,
        Action::MoveToEndOfNextLine { count, select } => "MoveToEndOfNextLine("@ + decimal_spec(count) + ")"@,
        Action::MoveToScreenTop { count, select } => "MoveToScreenTop("@ + decimal_spec(count) + ")"@,
        Action::MoveToScreenMiddle { count, select } => "MoveToScreenMiddle("@ + decimal_spec(count) + ")"@,
        Action::MoveToScreenBottom { count, select } => "MoveToScreenBottom("@ + decimal_spec(count) + ")"@,
        Action::MoveToPreviousParagraph { count, select } => "MoveToPrevPara("@ + decimal_spec(count) + ")"@,
        Action::MoveToNextParagraph { count, select } => "MoveToNextPara("@ + decimal_spec(count) + ")"@,
        Action::MoveToPreviousSentence { count, select } => "MoveToPrevSent("@ + decimal_spec(count) + ")"@,
        Action::MoveToNextSentence { count, select } => "MoveToNextSent("@ + decimal_spec(count) + ")"@,
        Action::MoveToNextCharacter { count, ch, select } => "MoveToNextCharacter("@ + decimal_spec(count) + " "@ + seq![ch] + ")"@,
        Action::MoveToPreviousCharacter { count, ch, select } => "MoveToPreviousCharacter("@ + decimal_spec(count) + " "@ + seq![ch] + ")"@,
        Action::MoveWithinCharacter { count, ch } => "MoveWithinCharacter("@ + decimal_spec(count) + " "@ + seq![ch] + ")"@,
        Action::MoveAroundCharacter { count, ch } => "MoveAroundCharacter("@ + decimal_spec(count) + " "@ + seq![ch] + ")"@,
        Action::ScrollForward { count } => "ScrollForward("@ + decimal_spec(count) + ")"@,
        Action::ScrollBackward { count } => "ScrollBackward("@ + decimal_spec(count) + ")"@,
        Action::ScrollHalfPageDown { count } => "ScrollHalfPageDown("@ + decimal_spec(count) + ")"@,
        Action::ScrollHalfPageUp { count } => "ScrollHalfPageUp("@ + decimal_spec(count) + ")"@,
        Action::ScrollLineDown { count } => "ScrollLineDown("@ + decimal_spec(count) + ")"@,
        Action::ScrollLineUp { count } => "ScrollLineUp("@ + decimal_spec(count) + ")"@,
        Action::MoveToColumn { count } => "MoveToColumn("@ + decimal_spec(count) + ")"@,
        Action::SearchForward { count } => "SearchForward "@ + decimal_spec(count),
        Action::SearchBackward { count } => "SearchBackward "@ + decimal_spec(count),
        Action::SearchNext { count } => "SearchNext("@ + decimal_spec(count) + ")"@,
        Action::SearchPrevious { count } => "SearchPrev("@ + decimal_spec(count) + ")"@,
        Action::DeleteMotion { count, motion } => "DeleteMotion("@ + decimal_spec(count) + ", "@ + display_spec(*motion) + ")"@,
        Action::ChangeMotion { count, motion } => "ChangeMotion("@ + decimal_spec(count) + ", "@ + display_spec(*motion) + ")"@,
        Action::YankMotion { count, motion } => "YankMotion("@ + decimal_spec(count) + ", "@ + display_spec(*motion) + ")"@,
        Action::DeleteLine { count } => "DeleteLine("@ + decimal_spec(count) + ")"@,
        Action::ChangeLine { count } => "ChangeLine("@ + decimal_spec(count) + ")"@,
        Action::YankLine { count } => "YankLine("@ + decimal_spec(count) + ")"@,
        Action::JoinLines { count } => "JoinLines("@ + decimal_spec(count) + ")"@,
        Action::DeleteChar { count } => "DeleteChar("@ + decimal_spec(count) + ")"@,
        Action::DeleteCharBefore { count } => "DeleteCharBefore("@ + decimal_spec(count) + ")"@,
        Action::Put { count } => "Put("@ + decimal_spec(count) + ")"@,
        Action::PutBefore { count } => "PutBefore("@ + decimal_spec(count) + ")"@,
        Action::Undo { count } => "Undo("@ + decimal_spec(count) + ")"@,
        Action::Redo { count } => "Redo("@ + decimal_spec(count) + ")"@,
        Action::Repeat { count } => "Repeat("@ + decimal_spec(count) + ")"@,
        Action::Indent { count } => "Indent("@ + decimal_spec(count) + ")"@,
        Action::Outdent { count } => "Outdent("@ + decimal_spec(count) + ")"@,
        Action::ChangeCase { count } => "ChangeCase("@ + decimal_spec(count) + ")"@,
        Action::SetToNormal => "SetNormal"@,
        Action::SetToInsert => "SetInsert"@,
        Action::SetToVisual => "SetVisual"@,
        Action::SetToVisualLine => "SetV-Line"@,
        Action::SetToVisualBlock => "SetV-Block"@,
        Action::SetToCommand => "SetCommand"@,
        Action::InsertNewLine { count } => "InsertNewLine("@ + decimal_spec(count) + ")"@,
        Action::InsertText(s) => "InsertText("@ + s@ + ")"@,
        Action::InsertNewLineMotion { count, motion } => "InsertNewLineMotion("@ + decimal_spec(count) + ", "@ + display_spec(*motion) + ")"@,
        Action::InsertTab => "InsertTab"@,
    }
}

/// `r` is `a` given the target character `ch` and repeat count `count`: a
/// character-search motion takes both, text insertion becomes the text `ch`,
/// any other action becomes `NoOp`.
pub open spec fn with_char_rel(a: Action, ch: char, count: u32, r: Action) -> bool {
    &&& a is MoveToNextCharacter ==> r == (Action::MoveToNextCharacter { select: false, ch, count })
    &&& a is MoveToPreviousCharacter ==> r == (Action::MoveToPreviousCharacter { select: false, ch, count })
    &&& a is InsertText ==> r is InsertText && r->InsertText_0@ == seq![ch]
    &&& !(a is MoveToNextCharacter || a is MoveToPreviousCharacter || a is InsertText) ==> r == Action::NoOp
}

impl Action {
    /// Sets the selection flag of the stand-by and arrow motions; any other action becomes `NoOp`.
    pub fn with_select(self, select: bool) -> (r: Action)
        ensures
            r == with_select_spec(self, select),
    {
        match self {
            Action::StandBy { count, .. } => Action::StandBy { count, select },
            Action::MoveLeft { count, .. } => Action::MoveLeft { count, select },
            Action::MoveRight { count, .. } => Action::MoveRight { count, select },
            Action::MoveUp { count, .. } => Action::MoveUp { count, select },
            Action::MoveDown { count, .. } => Action::MoveDown { count, select },
            _ => Action::NoOp,
        }
    }

    /// Replaces the repeat count; see [`with_count_spec`].
    pub fn with_count(self, count: u32) -> (r: Action)
        ensures
            r == with_count_spec(self, count),
    {
        match self {
            Action::NoOp => Action::NoOp,
            Action::Clear => Action::Clear,
            Action::Delete { .. } => Action::Delete { count },
            Action::Change { .. } => Action::Change { count },
            Action::Yank { .. } => Action::Yank { count },
            Action::StandBy { .. } => Action::StandBy { count, select: false },
            Action::MoveLeft { .. } => Action::MoveLeft { count, select: false },
            Action::MoveRight { .. } => Action::MoveRight { count, select: false },
            Action::MoveUp { .. } => Action::MoveUp { count, select: false },
            Action::MoveDown { .. } => Action::MoveDown { count, select: false },
            Action::MovePageUp { .. } => Action::MovePageUp { count, select: false },
            Action::MovePageDown { .. } => Action::MovePageDown { count, select: false },
            Action::MoveToWord { .. } => Action::MoveToWord { count, select: false },
            Action::MoveToPreviousWord { .. } => Action::MoveToPreviousWord { count, select: false },
            Action::MoveToWordEnd { .. } => Action::MoveToWordEnd { count, select: false },
            Action::MoveToPreviousWordEnd { .. } => Action::MoveToPreviousWordEnd { count, select: false },
            Action::MoveToBigWord { .. } => Action::MoveToBigWord { count, select: false },
            Action::MoveToPreviousBigWord { .. } => Action::MoveToPreviousBigWord { count, select: false },
            Action::MoveToBigWordEnd { .. } => Action::MoveToBigWordEnd { count, select: false },
            Action::MoveToStartOfDocument { .. } => Action::MoveToStartOfDocument { count, select: false },
            Action::MoveToEndOfDocument { .. } => Action::MoveToEndOfDocument { count, select: false },
            Action::MoveToStartOfLine { .. } => Action::MoveToStartOfLine { count, select: false },
            Action::MoveToStartOfLineNonSpace { .. } => Action::MoveToStartOfLineNonSpace { count, select: false },
            Action::MoveToEndOfLine { .. } => Action::MoveToEndOfLine { count, select: false },
            Action::MoveToStartOfPreviousLine { .. } => Action::MoveToStartOfPreviousLine { count, select: false },
            Action::MoveToEndOfPreviousLine { .. } => Action::MoveToEndOfPreviousLine { count, select: false },
            Action::MoveToStartOfNextLine { .. } => Action::MoveToStartOfNextLine { count, select: false },
            Action::MoveToEndOfNextLine { .. } => Action::MoveToEndOfNextLine { count, select: false },
            Action::MoveToScreenTop { .. } => Action::MoveToScreenTop { count, select: false },
            Action::MoveToScreenMiddle { .. } => Action::MoveToScreenMiddle { count, select: false },
            Action::MoveToScreenBottom { .. } => Action::MoveToScreenBottom { count, select: false },
            Action::MoveToPreviousParagraph { .. } => Action::MoveToPreviousParagraph { count, select: false },
            Action::MoveToNextParagraph { .. } => Action::MoveToNextParagraph { count, select: false },
            Action::MoveToPreviousSentence { .. } => Action::MoveToPreviousSentence { count, select: false },
            Action::MoveToNextSentence { .. } => Action::MoveToNextSentence { count, select: false },
            Action::MoveToNextCharacter { .. } => Action::MoveToNextCharacter { count, ch: '?', select: false },
            Action::MoveToPreviousCharacter { .. } => Action::MoveToPreviousCharacter { count, ch: '?', select: false },
            Action::MoveWithinCharacter { .. } => Action::MoveWithinCharacter { count, ch: '?' },
            Action::MoveAroundCharacter { .. } => Action::MoveAroundCharacter { count, ch: '?' },
            Action::ScrollForward { .. } => Action::ScrollForward { count },
            Action::ScrollBackward { .. } => Action::ScrollBackward { count },
            Action::ScrollHalfPageDown { .. } => Action::ScrollHalfPageDown { count },
            Action::ScrollHalfPageUp { .. } => Action::ScrollHalfPageUp { count },
            Action::ScrollLineDown { .. } => Action::ScrollLineDown { count },
            Action::ScrollLineUp { .. } => Action::ScrollLineUp { count },
            Action::MoveToColumn { .. } => Action::MoveToColumn { count },
            Action::SearchForward { .. } => Action::SearchForward { count },
            Action::SearchBackward { .. } => Action::SearchBackward { count },
            Action::SearchNext { .. } => Action::SearchNext { count },
            Action::SearchPrevious { .. } => Action::SearchPrevious { count },
            Action::DeleteMotion { motion, .. } => Action::DeleteMotion { count, motion },
            Action::ChangeMotion { motion, .. } => Action::ChangeMotion { count, motion },
            Action::YankMotion { motion, .. } => Action::YankMotion { count, motion },
            Action::DeleteLine { .. } => Action::DeleteLine { count },
            Action::ChangeLine { .. } => Action::ChangeLine { count },
            Action::YankLine { .. } => Action::YankLine { count },
            Action::JoinLines { .. } => Action::JoinLines { count },
            Action::DeleteChar { .. } => Action::DeleteChar { count },
            Action::DeleteCharBefore { .. } => Action::DeleteCharBefore { count },
            Action::Put { .. } => Action::Put { count },
            Action::PutBefore { .. } => Action::PutBefore { count },
            Action::Undo { .. } => Action::Undo { count },
            Action::Redo { .. } => Action::Redo { count },
            Action::Repeat { .. } => Action::Repeat { count },
            Action::Indent { .. } => Action::Indent { count },
            Action::Outdent { .. } => Action::Outdent { count },
            Action::ChangeCase { .. } => Action::ChangeCase { count },
            Action::SetToNormal => Action::SetToNormal,
            Action::SetToInsert => Action::SetToInsert,
            Action::SetToVisual => Action::SetToVisual,
            Action::SetToVisualLine => Action::SetToVisualLine,
            Action::SetToVisualBlock => Action::SetToVisualBlock,
            Action::SetToCommand => Action::SetToCommand,
            Action::InsertNewLine { .. } => Action::InsertNewLine { count },
            Action::InsertText(s) => Action::InsertText(s),
            Action::InsertNewLineMotion { motion, .. } => Action::InsertNewLineMotion { count, motion },
            Action::InsertTab => Action::InsertTab,
        }
    }

    /// Gives a character-search motion its target character and count, and
    /// text insertion its text; any other action becomes `NoOp`.
    pub fn with_char(self, ch: char, count: u32) -> (r: Action)
        ensures
            with_char_rel(self, ch, count, r),
    {
        match self {
            Action::MoveToNextCharacter { .. } => Action::MoveToNextCharacter { select: false, ch, count },
            Action::MoveToPreviousCharacter { .. } => Action::MoveToPreviousCharacter { select: false, ch, count },
            Action::InsertText(_) => Action::InsertText(char_to_string(ch)),
            _ => Action::NoOp,
        }
    }

    /// Whether this is `NoOp`, the action of keys that do nothing.
    pub fn is_noop(&self) -> (b: bool)
        ensures
            b == (*self is NoOp),
    {
        matches!(self, Action::NoOp)
    }

    /// Whether this is `Clear`.
    pub fn is_clear(&self) -> (b: bool)
        ensures
            b == (*self is Clear),
    {
        matches!(self, Action::Clear)
    }

    /// The repeat count; actions without one count once.
    pub fn count(&self) -> (c: u32)
        ensures
            c == count_spec(*self),
    {
        match self {
            Action::Delete { count, .. } => *count,
            Action::Change { count, .. } => *count,
            Action::Yank { count, .. } => *count,
            Action::MoveLeft { count, .. } => *count,
            Action::MoveRight { count, .. } => *count,
            Action::MoveUp { count, .. } => *count,
            Action::MoveDown { count, .. } => *count,
            Action::MovePageUp { count, .. } => *count,
            Action::MovePageDown { count, .. } => *count,
            Action::MoveToWord { count, .. } => *count,
            Action::MoveToPreviousWord { count, .. } => *count,
            Action::MoveToWordEnd { count, .. } => *count,
            Action::MoveToPreviousWordEnd { count, .. } => *count,
            Action::MoveToBigWord { count, .. } => *count,
            Action::MoveToPreviousBigWord { count, .. } => *count,
            Action::MoveToBigWordEnd { count, .. } => *count,
            Action::MoveToStartOfDocument { count, .. } => *count,
            Action::MoveToEndOfDocument { count, .. } => *count,
            Action::MoveToStartOfLine { count, .. } => *count,
            Action::MoveToStartOfLineNonSpace { count, .. } => *count,
            Action::MoveToEndOfLine { count, .. } => *count,
            Action::MoveToStartOfPreviousLine { count, .. } => *count,
            Action::MoveToEndOfPreviousLine { count, .. } => *count,
            Action::MoveToStartOfNextLine { count, .. } => *count,
            Action::MoveToEndOfNextLine { count, .. } => *count,
            Action::MoveToScreenTop { count, .. } => *count,
            Action::MoveToScreenMiddle { count, .. } => *count,
            Action::MoveToScreenBottom { count, .. } => *count,
            Action::MoveToPreviousParagraph { count, .. } => *count,
            Action::MoveToNextParagraph { count, .. } => *count,
            Action::MoveToPreviousSentence { count, .. } => *count,
            Action::MoveToNextSentence { count, .. } => *count,
            Action::ScrollForward { count, .. } => *count,
            Action::ScrollBackward { count, .. } => *count,
            Action::ScrollHalfPageDown { count, .. } => *count,
            Action::ScrollHalfPageUp { count, .. } => *count,
            Action::ScrollLineDown { count, .. } => *count,
            Action::ScrollLineUp { count, .. } => *count,
            Action::MoveToColumn { count, .. } => *count,
            Action::SearchForward { count, .. } => *count,
            Action::SearchBackward { count, .. } => *count,
            Action::SearchNext { count, .. } => *count,
            Action::SearchPrevious { count, .. } => *count,
            Action::DeleteMotion { count, .. } => *count,
            Action::ChangeMotion { count, .. } => *count,
            Action::YankMotion { count, .. } => *count,
            Action::DeleteLine { count, .. } => *count,
            Action::ChangeLine { count, .. } => *count,
            Action::YankLine { count, .. } => *count,
            Action::JoinLines { count, .. } => *count,
            Action::DeleteChar { count, .. } => *count,
            Action::DeleteCharBefore { count, .. } => *count,
            Action::Put { count, .. } => *count,
            Action::PutBefore { count, .. } => *count,
            Action::Undo { count, .. } => *count,
            Action::Redo { count, .. } => *count,
            Action::Repeat { count, .. } => *count,
            Action::Indent { count, .. } => *count,
            Action::Outdent { count, .. } => *count,
            Action::ChangeCase { count, .. } => *count,
            Action::InsertNewLine { count, .. } => *count,
            Action::InsertNewLineMotion { count, .. } => *count,
            _ => 1,
        }
    }

    /// The text shown for this action.
    pub fn to_display_string(&self) -> (s: String)
        ensures
            s@ == display_spec(*self),
        decreases self,
    {
        match self {
            Action::NoOp => { let mut s = String::new(); s.append("None"); s },
            Action::Clear => { let mut s = String::new(); s.append("Clear"); s },
            Action::Delete { count, .. } => { let mut s = String::new(); s.append("Delete("); s.append(u32_to_decimal(*count).as_str()); s.append(")"); s },
            Action::Change { count, .. } => { let mut s = String::new(); s.append("Change("); s.append(u32_to_decimal(*count).as_str()); s.append(")"); s },
            Action::Yank { count, .. } => { let mut s = String::new(); s.append("Yank("); s.append(u32_to_decimal(*count).as_str()); s.append(")"); s },
            Action::StandBy { count, .. } => { let mut s = String::new(); s.append("StandBy("); s.append(u32_to_decimal(*count).as_str()); s.append(")"); s },
            Action::MoveLeft { count, .. } => { let mut s = String::new(); s.append("MoveLeft("); s.append(u32_to_decimal(*count).as_str()); s.append(")"); s },
            Action::MoveRight { count, .. } => { let mut s = String::new(); s.append("MoveRight("); s.append(u32_to_decimal(*count).as_str()); s.append(")"); s },
            Action::MoveUp { count, .. } => { let mut s = String::new(); s.append("MoveUp("); s.append(u32_to_decimal(*count).as_str()); s.append(")"); s },
            Action::MoveDown { count, .. } => { let mut s = String::new(); s.append("MoveDown("); s.append(u32_to_decimal(*count).as_str()); s.append(")"); s },
            Action::MovePageUp { count, .. } => { let mut s = String::new(); s.append("MovePageUp("); s.append(u32_to_decimal(*count).as_str()); s.append(")"); s },
            Action::MovePageDown { count, .. } => { let mut s = String::new(); s.append("MovePageDown("); s.append(u32_to_decimal(*count).as_str()); s.append(")"); s },
            Action::MoveToWord { count, .. } => { let mut s = String::new(); s.append("MoveToWord("); s.append(u32_to_decimal(*count).as_str()); s.append(")"); s },
            Action::MoveToPreviousWord { count, .. } => { let mut s = String::new(); s.append("MoveToPreviousWord("); s.append(u32_to_decimal(*count).as_str()); s.append(")"); s },
            Action::MoveToWordEnd { count, .. } => { let mut s = String::new(); s.append("MoveToWordEnd("); s.append(u32_to_decimal(*count).as_str()); s.append(")"); s },
            Action::MoveToPreviousWordEnd { count, .. } => { let mut s = String::new(); s.append("MoveToPreviousWordEnd("); s.append(u32_to_decimal(*count).as_str()); s.append(")"); s },
            Action::MoveToBigWord { count, .. } => { let mut s = String::new(); s.append("MoveToBigWord("); s.append(u32_to_decimal(*count).as_str()); s.append(")"); s },
            Action::MoveToPreviousBigWord { count, .. } => { let mut s = String::new(); s.append("MoveToPrevBigWord("); s.append(u32_to_decimal(*count).as_str()); s.append(")"); s },
            Action::MoveToBigWordEnd { count, .. } => { let mut s = String::new(); s.append("MoveToBigWordEnd("); s.append(u32_to_decimal(*count).as_str()); s.append(")"); s },
            Action::MoveToStartOfDocument { count, .. } => { let mut s = String::new(); s.append("MoveToStartOfDoc("); s.append(u32_to_decimal(*count).as_str()); s.append(")"); s },
            Action::MoveToEndOfDocument { count, .. } => { let mut s = String::new(); s.append("MoveToEndOfDoc("); s.append(u32_to_decimal(*count).as_str()); s.append(")"); s },
            Action::MoveToStartOfLine { count, .. } => { let mut s = String::new(); s.append("MoveToStartOfLine("); s.append(u32_to_decimal(*count).as_str()); s.append(")"); s },
            Action::MoveToStartOfLineNonSpace { count, .. } => { let mut s = String::new(); s.append("MoveToStartOfLineNonSpace("); s.append(u32_to_decimal(*count).as_str()); s.append(")"); s },
            Action::MoveToEndOfLine { count, .. } => { let mut s = String::new(); s.append("MoveToEndOfLine("); s.append(u32_to_decimal(*count).as_str()); s.append(")"); s },
            Action::MoveToStartOfPreviousLine { count, .. } => { let mut s = String::new(); s.append("MoveToStartOfPrevLine("); s.append(u32_to_decimal(*count).as_str()); s.append(")"); s },
            Action::MoveToEndOfPreviousLine { count, .. } => { let mut s = String::new(); s.append("MoveToEndOfPrevLine("); s.append(u32_to_decimal(*count).as_str()); s.append(")"); s },
            Action::MoveToStartOfNextLine { count, .. } => { let mut s = String::new(); s.append("MoveToStartOfNextLine("); s.append(u32_to_decimal(*count).as_str()); s.append(")"); s },
            Action::MoveToEndOfNextLine { count, .. } => { let mut s = String::new(); s.append("MoveToEndOfNextLine("); s.append(u32_to_decimal(*count).as_str()); s.append(")"); s },
            Action::MoveToScreenTop { count, .. } => { let mut s = String::new(); s.append("MoveToScreenTop("); s.append(u32_to_decimal(*count).as_str()); s.append(")"); s },
            Action::MoveToScreenMiddle { count, .. } => { let mut s = String::new(); s.append("MoveToScreenMiddle("); s.append(u32_to_decimal(*count).as_str()); s.append(")"); s },
            Action::MoveToScreenBottom { count, .. } => { let mut s = String::new(); s.append("MoveToScreenBottom("); s.append(u32_to_decimal(*count).as_str()); s.append(")"); s },
            Action::MoveToPreviousParagraph { count, .. } => { let mut s = String::new(); s.append("MoveToPrevPara("); s.append(u32_to_decimal(*count).as_str()); s.append(")"); s },
            Action::MoveToNextParagraph { count, .. } => { let mut s = String::new(); s.append("MoveToNextPara("); s.append(u32_to_decimal(*count).as_str()); s.append(")"); s },
            Action::MoveToPreviousSentence { count, .. } => { let mut s = String::new(); s.append("MoveToPrevSent("); s.append(u32_to_decimal(*count).as_str()); s.append(")"); s },
            Action::MoveToNextSentence { count, .. } => { let mut s = String::new(); s.append("MoveToNextSent("); s.append(u32_to_decimal(*count).as_str()); s.append(")"); s },
            Action::MoveToNextCharacter { count, ch, .. } => { let mut s = String::new(); s.append("MoveToNextCharacter("); s.append(u32_to_decimal(*count).as_str()); s.append(" "); s.append(char_to_string(*ch).as_str()); s.append(")"); s },
            Action::MoveToPreviousCharacter { count, ch, .. } => { let mut s = String::new(); s.append("MoveToPreviousCharacter("); s.append(u32_to_decimal(*count).as_str()); s.append(" "); s.append(char_to_string(*ch).as_str()); s.append(")"); s },
            Action::MoveWithinCharacter { count, ch, .. } => { let mut s = String::new(); s.append("MoveWithinCharacter("); s.append(u32_to_decimal(*count).as_str()); s.append(" "); s.append(char_to_string(*ch).as_str()); s.append(")"); s },
            Action::MoveAroundCharacter { count, ch, .. } => { let mut s = String::new(); s.append("MoveAroundCharacter("); s.append(u32_to_decimal(*count).as_str()); s.append(" "); s.append(char_to_string(*ch).as_str()); s.append(")"); s },
            Action::ScrollForward { count, .. } => { let mut s = String::new(); s.append("ScrollForward("); s.append(u32_to_decimal(*count).as_str()); s.append(")"); s },
            Action::ScrollBackward { count, .. } => { let mut s = String::new(); s.append("ScrollBackward("); s.append(u32_to_decimal(*count).as_str()); s.append(")"); s },
            Action::ScrollHalfPageDown { count, .. } => { let mut s = String::new(); s.append("ScrollHalfPageDown("); s.append(u32_to_decimal(*count).as_str()); s.append(")"); s },
            Action::ScrollHalfPageUp { count, .. } => { let mut s = String::new(); s.append("ScrollHalfPageUp("); s.append(u32_to_decimal(*count).as_str()); s.append(")"); s },
            Action::ScrollLineDown { count, .. } => { let mut s = String::new(); s.append("ScrollLineDown("); s.append(u32_to_decimal(*count).as_str()); s.append(")"); s },
            Action::ScrollLineUp { count, .. } => { let mut s = String::new(); s.append("ScrollLineUp("); s.append(u32_to_decimal(*count).as_str()); s.append(")"); s },
            Action::MoveToColumn { count, .. } => { let mut s = String::new(); s.append("MoveToColumn("); s.append(u32_to_decimal(*count).as_str()); s.append(")"); s },
            Action::SearchForward { count, .. } => { let mut s = String::new(); s.append("SearchForward "); s.append(u32_to_decimal(*count).as_str()); s },
            Action::SearchBackward { count, .. } => { let mut s = String::new(); s.append("SearchBackward "); s.append(u32_to_decimal(*count).as_str()); s },
            Action::SearchNext { count, .. } => { let mut s = String::new(); s.append("SearchNext("); s.append(u32_to_decimal(*count).as_str()); s.append(")"); s },
            Action::SearchPrevious { count, .. } => { let mut s = String::new(); s.append("SearchPrev("); s.append(u32_to_decimal(*count).as_str()); s.append(")"); s },
            Action::DeleteMotion { count, motion, .. } => { let mut s = String::new(); s.append("DeleteMotion("); s.append(u32_to_decimal(*count).as_str()); s.append(", "); s.append(motion.to_display_string().as_str()); s.append(")"); s },
            Action::ChangeMotion { count, motion, .. } => { let mut s = String::new(); s.append("ChangeMotion("); s.append(u32_to_decimal(*count).as_str()); s.append(", "); s.append(motion.to_display_string().as_str()); s.append(")"); s },
            Action::YankMotion { count, motion, .. } => { let mut s = String::new(); s.append("YankMotion("); s.append(u32_to_decimal(*count).as_str()); s.append(", "); s.append(motion.to_display_string().as_str()); s.append(")"); s },
            Action::DeleteLine { count, .. } => { let mut s = String::new(); s.append("DeleteLine("); s.append(u32_to_decimal(*count).as_str()); s.append(")"); s },
            Action::ChangeLine { count, .. } => { let mut s = String::new(); s.append("ChangeLine("); s.append(u32_to_decimal(*count).as_str()); s.append(")"); s },
            Action::YankLine { count, .. } => { let mut s = String::new(); s.append("YankLine("); s.append(u32_to_decimal(*count).as_str()); s.append(")"); s },
            Action::JoinLines { count, .. } => { let mut s = String::new(); s.append("JoinLines("); s.append(u32_to_decimal(*count).as_str()); s.append(")"); s },
            Action::DeleteChar { count, .. } => { let mut s = String::new(); s.append("DeleteChar("); s.append(u32_to_decimal(*count).as_str()); s.append(")"); s },
            Action::DeleteCharBefore { count, .. } => { let mut s = String::new(); s.append("DeleteCharBefore("); s.append(u32_to_decimal(*count).as_str()); s.append(")"); s },
            Action::Put { count, .. } => { let mut s = String::new(); s.append("Put("); s.append(u32_to_decimal(*count).as_str()); s.append(")"); s },
            Action::PutBefore { count, .. } => { let mut s = String::new(); s.append("PutBefore("); s.append(u32_to_decimal(*count).as_str()); s.append(")"); s },
            Action::Undo { count, .. } => { let mut s = String::new(); s.append("Undo("); s.append(u32_to_decimal(*count).as_str()); s.append(")"); s },
            Action::Redo { count, .. } => { let mut s = String::new(); s.append("Redo("); s.append(u32_to_decimal(*count).as_str()); s.append(")"); s },
            Action::Repeat { count, .. } => { let mut s = String::new(); s.append("Repeat("); s.append(u32_to_decimal(*count).as_str()); s.append(")"); s },
            Action::Indent { count, .. } => { let mut s = String::new(); s.append("Indent("); s.append(u32_to_decimal(*count).as_str()); s.append(")"); s },
            Action::Outdent { count, .. } => { let mut s = String::new(); s.append("Outdent("); s.append(u32_to_decimal(*count).as_str()); s.append(")"); s },
            Action::ChangeCase { count, .. } => { let mut s = String::new(); s.append("ChangeCase("); s.append(u32_to_decimal(*count).as_str()); s.append(")"); s },
            Action::SetToNormal => { let mut s = String::new(); s.append("SetNormal"); s },
            Action::SetToInsert => { let mut s = String::new(); s.append("SetInsert"); s },
            Action::SetToVisual => { let mut s = String::new(); s.append("SetVisual"); s },
            Action::SetToVisualLine => { let mut s = String::new(); s.append("SetV-Line"); s },
            Action::SetToVisualBlock => { let mut s = String::new(); s.append("SetV-Block"); s },
            Action::SetToCommand => { let mut s = String::new(); s.append("SetCommand"); s },
            Action::InsertNewLine { count, .. } => { let mut s = String::new(); s.append("InsertNewLine("); s.append(u32_to_decimal(*count).as_str()); s.append(")"); s },
            Action::InsertText(s0) => { let mut s = String::new(); s.append("InsertText("); s.append(s0.as_str()); s.append(")"); s },
            Action::InsertNewLineMotion { count, motion, .. } => { let mut s = String::new(); s.append("InsertNewLineMotion("); s.append(u32_to_decimal(*count).as_str()); s.append(", "); s.append(motion.to_display_string().as_str()); s.append(")"); s },
            Action::InsertTab => { let mut s = String::new(); s.append("InsertTab"); s },
        }
    }
}

} // verus!
