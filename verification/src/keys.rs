//! Keyboard input as the editor sees it: key codes, modifier sets and key events.
use vstd::prelude::*;

verus! {

/// A key on the keyboard.
#[derive(Clone, Copy, Debug, PartialEq, Eq, Structural)]
pub enum KeyCode {
    Backspace,
    Enter,
    Left,
    Right,
    Up,
    Down,
    Home,
    End,
    PageUp,
    PageDown,
    Tab,
    BackTab,
    Delete,
    Insert,
    F(u8),
    Char(char),
    Null,
    Esc,
    CapsLock,
    ScrollLock,
    NumLock,
    PrintScreen,
    Pause,
    Menu,
    KeypadBegin,
}

/// A set of modifier keys held with a key.
#[derive(Clone, Copy, Debug, PartialEq, Eq, Structural)]
pub struct KeyModifiers {
    pub shift: bool,
    pub control: bool,
    pub alt: bool,
    pub super_key: bool,
    pub hyper: bool,
    pub meta: bool,
}

/// The empty modifier set.
pub open spec fn no_modifiers() -> KeyModifiers {
    KeyModifiers { shift: false, control: false, alt: false, super_key: false, hyper: false, meta: false }
}

impl KeyModifiers {
    /// No modifier.
    pub fn empty() -> (m: KeyModifiers)
        ensures
            m == no_modifiers(),
    {
        KeyModifiers { shift: false, control: false, alt: false, super_key: false, hyper: false, meta: false }
    }

    /// Shift alone.
    pub fn shift() -> (m: KeyModifiers)
        ensures
            m == (KeyModifiers { shift: true, ..no_modifiers() }),
    {
        KeyModifiers { shift: true, control: false, alt: false, super_key: false, hyper: false, meta: false }
    }

    /// Control alone.
    pub fn control() -> (m: KeyModifiers)
        ensures
            m == (KeyModifiers { control: true, ..no_modifiers() }),
    {
        KeyModifiers { shift: false, control: true, alt: false, super_key: false, hyper: false, meta: false }
    }

    /// Alt alone.
    pub fn alt() -> (m: KeyModifiers)
        ensures
            m == (KeyModifiers { alt: true, ..no_modifiers() }),
    {
        KeyModifiers { shift: false, control: false, alt: true, super_key: false, hyper: false, meta: false }
    }

    /// The modifiers held in either set.
    pub fn union(&self, other: &KeyModifiers) -> (m: KeyModifiers)
        ensures
            m.shift == (self.shift || other.shift),
            m.control == (self.control || other.control),
            m.alt == (self.alt || other.alt),
            m.super_key == (self.super_key || other.super_key),
            m.hyper == (self.hyper || other.hyper),
            m.meta == (self.meta || other.meta),
    {
        KeyModifiers {
            shift: self.shift || other.shift,
            control: self.control || other.control,
            alt: self.alt || other.alt,
            super_key: self.super_key || other.super_key,
            hyper: self.hyper || other.hyper,
            meta: self.meta || other.meta,
        }
    }

    /// Whether every modifier of `other` is held in this set.
    pub fn contains(&self, other: &KeyModifiers) -> (b: bool)
        ensures
            b == ((other.shift ==> self.shift) && (other.control ==> self.control) && (other.alt ==> self.alt)
                && (other.super_key ==> self.super_key) && (other.hyper ==> self.hyper) && (other.meta ==> self.meta)),
    {
        (!other.shift || self.shift) && (!other.control || self.control) && (!other.alt || self.alt) && (!other.super_key
            || self.super_key) && (!other.hyper || self.hyper) && (!other.meta || self.meta)
    }

    /// Whether no modifier is held.
    pub fn is_empty(&self) -> (b: bool)
        ensures
            b == (*self == no_modifiers()),
    {
        !self.shift && !self.control && !self.alt && !self.super_key && !self.hyper && !self.meta
    }
}

/// Whether a key event is a press, an auto-repeat or a release.
#[derive(Clone, Copy, Debug, PartialEq, Eq, Structural)]
pub enum KeyEventKind {
    Press,
    Repeat,
    Release,
}

/// A key event: the key, the modifiers held with it, and its kind.
#[derive(Clone, Copy, Debug, PartialEq, Eq, Structural)]
pub struct KeyEvent {
    pub code: KeyCode,
    pub modifiers: KeyModifiers,
    pub kind: KeyEventKind,
}

impl KeyEvent {
    /// A key press.
    pub fn new(code: KeyCode, modifiers: KeyModifiers) -> (e: KeyEvent)
        ensures
            e == (KeyEvent { code, modifiers, kind: KeyEventKind::Press }),
    {
        KeyEvent { code, modifiers, kind: KeyEventKind::Press }
    }
}

} // verus!
