use dzed::clipboard::{Clipboard, ClipboardKind};

#[test]
fn stores_text_and_selection_kind() {
    let mut clipboard = Clipboard::new();
    clipboard.set_lines("one\ntwo\n");

    assert_eq!(clipboard.text(), "one\ntwo\n");
    assert_eq!(clipboard.kind(), ClipboardKind::Line);
    assert!(!clipboard.is_empty());
}

#[test]
fn taking_contents_resets_clipboard() {
    let mut clipboard = Clipboard::new();
    clipboard.set_block("ab\ncd");

    assert_eq!(clipboard.take(), ("ab\ncd".to_string(), ClipboardKind::Block));
    assert!(clipboard.is_empty());
    assert_eq!(clipboard.kind(), ClipboardKind::Character);
}

#[test]
fn a_new_clipboard_is_empty_and_character_wise() {
    let clipboard = Clipboard::new();
    assert!(clipboard.is_empty());
    assert_eq!(clipboard.text(), "");
    assert_eq!(clipboard.kind(), ClipboardKind::Character);
}

#[test]
fn set_text_and_clear() {
    let mut clipboard = Clipboard::new();
    clipboard.set_text("word");
    assert_eq!(clipboard.text(), "word");
    assert_eq!(clipboard.kind(), ClipboardKind::Character);
    clipboard.set("xy", ClipboardKind::Block);
    assert_eq!(clipboard.kind(), ClipboardKind::Block);
    clipboard.clear();
    assert!(clipboard.is_empty());
    assert_eq!(clipboard.kind(), ClipboardKind::Character);
}
