//! The editor's clipboard: the last yanked or deleted text and the kind of
//! selection it came from.
use vstd::prelude::*;
use vstd::string::StringExecFns;

verus! {

/// How clipboard text was selected, which decides how it is put back.
#[derive(Debug, Clone, Copy, PartialEq, Eq, Structural)]
pub enum ClipboardKind {
    Character,
    Line,
    Block,
}

impl Default for ClipboardKind {
    fn default() -> (k: ClipboardKind)
        ensures
            k == ClipboardKind::Character,
    {
        ClipboardKind::Character
    }
}

/// Text together with the kind of selection it came from.
#[derive(Debug)]
pub struct Clipboard {
    text: String,
    kind: ClipboardKind,
}

impl View for Clipboard {
    type V = (Seq<char>, ClipboardKind);

    closed spec fn view(&self) -> (Seq<char>, ClipboardKind) {
        (self.text@, self.kind)
    }
}

impl Clone for Clipboard {
    fn clone(&self) -> (c: Clipboard)
        ensures
            c@ == self@,
    {
        Clipboard { text: self.text.clone(), kind: self.kind }
    }
}

impl Default for Clipboard {
    fn default() -> (c: Clipboard)
        ensures
            c@ == (Seq::<char>::empty(), ClipboardKind::Character),
    {
        Clipboard::new()
    }
}

impl Clipboard {
    /// An empty clipboard holding character-wise text.
    pub fn new() -> (c: Clipboard)
        ensures
            c@ == (Seq::<char>::empty(), ClipboardKind::Character),
    {
        Clipboard { text: String::new(), kind: ClipboardKind::Character }
    }

    /// Replaces the contents with `text` of the given kind.
    pub fn set(&mut self, text: &str, kind: ClipboardKind)
        ensures
            final(self)@ == (text@, kind),
    {
        self.text = String::from_str(text);
        self.kind = kind;
    }

    /// Replaces the contents with character-wise text.
    pub fn set_text(&mut self, text: &str)
        ensures
            final(self)@ == (text@, ClipboardKind::Character),
    {
        self.set(text, ClipboardKind::Character);
    }

    /// Replaces the contents with whole lines.
    pub fn set_lines(&mut self, text: &str)
        ensures
            final(self)@ == (text@, ClipboardKind::Line),
    {
        self.set(text, ClipboardKind::Line);
    }

    /// Replaces the contents with a rectangular block.
    pub fn set_block(&mut self, text: &str)
        ensures
            final(self)@ == (text@, ClipboardKind::Block),
    {
        self.set(text, ClipboardKind::Block);
    }

    pub fn text(&self) -> (t: &str)
        ensures
            t@ == self@.0,
    {
        self.text.as_str()
    }

    pub fn kind(&self) -> (k: ClipboardKind)
        ensures
            k == self@.1,
    {
        self.kind
    }

    pub fn is_empty(&self) -> (b: bool)
        ensures
            b == (self@.0.len() == 0),
    {
        self.text.as_str().is_empty()
    }

    /// Empties the clipboard; its kind returns to character-wise.
    pub fn clear(&mut self)
        ensures
            final(self)@ == (Seq::<char>::empty(), ClipboardKind::Character),
    {
        self.text = String::new();
        self.kind = ClipboardKind::Character;
    }

    /// Hands out the contents and leaves the clipboard empty and
    /// character-wise.
    pub fn take(&mut self) -> (r: (String, ClipboardKind))
        ensures
            r.0@ == old(self)@.0,
            r.1 == old(self)@.1,
            final(self)@ == (Seq::<char>::empty(), ClipboardKind::Character),
    {
        let mut text = String::new();
        std::mem::swap(&mut text, &mut self.text);
        let kind = self.kind;
        self.kind = ClipboardKind::Character;
        (text, kind)
    }
}

} // verus!
