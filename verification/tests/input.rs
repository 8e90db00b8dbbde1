use dzed::input::{handle_key_event, HandleEvent};
use dzed::actions::{Action, Mode};
use dzed::input::{InputContext, VimInput};
use dzed::keys::{KeyCode, KeyEvent, KeyEventKind, KeyModifiers};

fn send_key(vim: &mut VimInput, code: KeyCode, modifiers: KeyModifiers) -> Action {
    vim.handle_event(&KeyEvent::new(code, modifiers))
}

fn send_char(vim: &mut VimInput, c: char) -> Action {
    if c.is_ascii_uppercase() {
        send_key(vim, KeyCode::Char(c), KeyModifiers::shift())
    } else {
        send_key(vim, KeyCode::Char(c), KeyModifiers::empty())
    }
}

#[test]
fn input_test_simple_motions() {
    let mut vim = VimInput::new();

    assert_eq!(send_char(&mut vim, 'j'), Action::MoveDown { count: 1, select: false });

    send_char(&mut vim, '5');
    assert_eq!(send_char(&mut vim, 'k'), Action::MoveUp { count: 5, select: false });

    send_char(&mut vim, 'g');
    assert_eq!(send_char(&mut vim, 'g'), Action::MoveToStartOfDocument { count: 1, select: false });
}

#[test]
fn input_test_operators() {
    let mut vim = VimInput::new();

    send_char(&mut vim, 'd');
    let action = send_char(&mut vim, 'w');
    if let Action::DeleteMotion { count, motion } = action {
        assert_eq!(count, 1);
        assert_eq!(*motion, Action::MoveToWord { count: 1, select: false });
    } else {
        panic!("Expected DeleteMotion, got {:?}", action);
    }

    send_char(&mut vim, '2');
    send_char(&mut vim, 'd');
    send_char(&mut vim, '3');
    let action = send_char(&mut vim, 'w');
    if let Action::DeleteMotion { count, motion } = action {
        assert_eq!(count, 2);
        assert_eq!(*motion, Action::MoveToWord { count: 3, select: false });
    } else {
        panic!("Expected DeleteMotion, got {:?}", action);
    }
}

#[test]
fn input_test_line_operators() {
    let mut vim = VimInput::new();

    send_char(&mut vim, 'd');
    assert_eq!(send_char(&mut vim, 'd'), Action::DeleteLine { count: 1 });

    send_char(&mut vim, '5');
    send_char(&mut vim, 'y');
    assert_eq!(send_char(&mut vim, 'y'), Action::YankLine { count: 5 });
}

#[test]
fn input_test_char_motions() {
    let mut vim = VimInput::new();

    send_char(&mut vim, 'f');
    assert_eq!(
        send_char(&mut vim, 'x'),
        Action::MoveToNextCharacter { count: 1, select: false, ch: 'x' }
    );

    send_char(&mut vim, '3');
    send_char(&mut vim, 'F');
    assert_eq!(
        send_char(&mut vim, 'y'),
        Action::MoveToPreviousCharacter { count: 3, select: false, ch: 'y' }
    );
}

#[test]
fn input_test_mode_changes() {
    let mut vim = VimInput::new();

    assert_eq!(vim.mode, Mode::Normal);
    send_char(&mut vim, 'i');
    assert_eq!(vim.mode, Mode::Insert);

    send_key(&mut vim, KeyCode::Esc, KeyModifiers::empty());
    assert_eq!(vim.mode, Mode::Normal);

    send_char(&mut vim, 'v');
    assert_eq!(vim.mode, Mode::Visual);
}

#[test]
fn input_test_insert_mode() {
    let mut vim = VimInput::new();
    send_char(&mut vim, 'i');
    assert_eq!(vim.mode, Mode::Insert);

    assert_eq!(send_char(&mut vim, 'a'), Action::InsertText("a".to_string()));

    assert_eq!(send_key(&mut vim, KeyCode::Enter, KeyModifiers::empty()), Action::InsertNewLine { count: 1 });

    send_key(&mut vim, KeyCode::Esc, KeyModifiers::empty());
    assert_eq!(vim.mode, Mode::Normal);
}

#[test]
fn test_partial_operator() {
    let mut vim = VimInput::new();
    send_char(&mut vim, 'd');
    assert_eq!(vim.resolved_op, Action::Delete { count: 1 });

    send_char(&mut vim, '3');
    assert_eq!(vim.resolved_op, Action::Delete { count: 1 });
}

#[test]
fn key_releases_are_ignored() {
    let mut vim = VimInput::new();
    let release = KeyEvent { code: KeyCode::Char('j'), modifiers: KeyModifiers::empty(), kind: KeyEventKind::Release };
    assert_eq!(vim.handle_event(&release), Action::NoOp);
    assert!(vim.buffer.is_empty());
}

#[test]
fn zero_after_a_digit_continues_the_count() {
    let mut vim = VimInput::new();
    assert_eq!(send_char(&mut vim, '1'), Action::NoOp);
    assert_eq!(send_char(&mut vim, '0'), Action::NoOp);
    assert_eq!(send_char(&mut vim, 'j'), Action::MoveDown { count: 10, select: false });
    assert_eq!(send_char(&mut vim, '0'), Action::MoveToStartOfLine { count: 1, select: false });
}

#[test]
fn visual_mode_selects_with_arrow_motions() {
    let mut vim = VimInput::new();
    send_char(&mut vim, 'v');
    assert_eq!(vim.mode, Mode::Visual);
    assert_eq!(send_char(&mut vim, 'l'), Action::MoveRight { count: 1, select: true });
    send_key(&mut vim, KeyCode::Esc, KeyModifiers::empty());
    assert_eq!(vim.mode, Mode::Normal);
}

#[test]
fn control_keys_resolve_scrolling() {
    let mut vim = VimInput::new();
    assert_eq!(send_key(&mut vim, KeyCode::Char('f'), KeyModifiers::control()), Action::ScrollForward { count: 1 });
    assert_eq!(send_key(&mut vim, KeyCode::Char('r'), KeyModifiers::control()), Action::Redo { count: 1 });
}

#[test]
fn input_context_starts_in_normal_mode() {
    assert_eq!(InputContext::new().mode, Mode::Normal);
}

#[test]
fn key_events_decide_what_to_redraw() {
    let mut vim = VimInput::new();
    let (outcome, action) = handle_key_event(&mut vim, &KeyEvent::new(KeyCode::Char('d'), KeyModifiers::empty()));
    assert_eq!((outcome, action), (HandleEvent::Redraw, Action::NoOp));
    let (outcome, action) = handle_key_event(&mut vim, &KeyEvent::new(KeyCode::Esc, KeyModifiers::empty()));
    assert_eq!((outcome, action), (HandleEvent::RedrawAndSync, Action::Clear));
    assert!(vim.buffer.is_empty());
    send_char(&mut vim, '2');
    let release = KeyEvent { code: KeyCode::Esc, modifiers: KeyModifiers::empty(), kind: KeyEventKind::Release };
    let (outcome, action) = handle_key_event(&mut vim, &release);
    assert_eq!((outcome, action), (HandleEvent::Redraw, Action::NoOp));
    assert!(vim.buffer.is_empty());
    let (outcome, action) = handle_key_event(&mut vim, &KeyEvent::new(KeyCode::Char('j'), KeyModifiers::empty()));
    assert_eq!((outcome, action), (HandleEvent::RedrawAndSync, Action::MoveDown { count: 1, select: false }));
    let (outcome, action) = handle_key_event(&mut vim, &KeyEvent::new(KeyCode::Char('r'), KeyModifiers::control()));
    assert_eq!((outcome, action), (HandleEvent::RedrawAndSync, Action::Redo { count: 1 }));
    let (outcome, _) = handle_key_event(&mut vim, &KeyEvent::new(KeyCode::F(3), KeyModifiers::empty()));
    assert_eq!(outcome, HandleEvent::Redraw);
    vim.clear();
    let release = KeyEvent { code: KeyCode::Char('x'), modifiers: KeyModifiers::empty(), kind: KeyEventKind::Release };
    assert_eq!(handle_key_event(&mut vim, &release), (HandleEvent::NoRedraw, Action::NoOp));
}

#[test]
fn test_count_with_zero() {
    let mut vim = VimInput::new();

    send_char(&mut vim, '1');
    send_char(&mut vim, '0');
    assert_eq!(send_char(&mut vim, 'w'), Action::MoveToWord { count: 10, select: false });

    assert_eq!(send_char(&mut vim, '0'), Action::MoveToStartOfLine { count: 1, select: false });
}

#[test]
fn test_invalid_prefix_recovery() {
    let mut vim = VimInput::new();

    // Typing invalid letters 'z' then 'x' prior to 'w' recovers and executes 'w'
    send_char(&mut vim, 'z');
    send_char(&mut vim, 'x');
    assert_eq!(send_char(&mut vim, 'w'), Action::MoveToWord { count: 1, select: false });
}
