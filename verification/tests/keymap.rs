use dzed::actions::Action;
use dzed::keymap::{
    peek_action, peek_count, resolve_action, resolve_count, resolve_op_motion_action, BindSequence,
    IntoKeyComboSequence, KeyBindings, KeyBuffer, KeyCombo, KeyComboSequence, KeyPattern, Keymap,
};
use dzed::keys::{KeyCode, KeyEvent, KeyModifiers};

fn ch(c: char) -> KeyCombo {
    KeyCombo::new(KeyCode::Char(c), KeyModifiers::empty())
}

fn buffer_of(text: &str) -> KeyBuffer {
    let mut b = KeyBuffer::new();
    for c in text.chars() {
        b.push(ch(c));
    }
    b
}

#[test]
fn parses_key_names_and_modifiers() {
    assert_eq!(KeyCombo::parse("Esc").unwrap(), KeyCombo::new(KeyCode::Esc, KeyModifiers::empty()));
    assert_eq!(KeyCombo::parse("C-f").unwrap(), KeyCombo::new(KeyCode::Char('f'), KeyModifiers::control()));
    assert_eq!(KeyCombo::parse("M-x").unwrap(), KeyCombo::new(KeyCode::Char('x'), KeyModifiers::alt()));
    assert_eq!(KeyCombo::parse("S-Up").unwrap(), KeyCombo::new(KeyCode::Up, KeyModifiers::shift()));
    assert_eq!(KeyCombo::parse("S-a").unwrap(), KeyCombo::new(KeyCode::Char('A'), KeyModifiers::empty()));
    assert_eq!(KeyCombo::parse("pgdn").unwrap(), KeyCombo::new(KeyCode::PageDown, KeyModifiers::empty()));
    assert_eq!(KeyCombo::parse("X-a"), Err("Unknown modifier: X".to_string()));
    assert_eq!(KeyCombo::parse("UnknownKey"), Err("Unknown key code: UnknownKey".to_string()));
}

#[test]
fn key_combinations_print_with_their_modifiers() {
    let both = KeyModifiers::control().union(&KeyModifiers::alt());
    assert_eq!(KeyCombo::new(KeyCode::Char('f'), both).to_string(), "C-M-f");
    assert_eq!(KeyCombo::new(KeyCode::Up, KeyModifiers::shift()).to_string(), "S-Up");
    assert_eq!(KeyCombo::new(KeyCode::F(5), KeyModifiers::empty()).to_string(), "F(5)");
    assert_eq!(buffer_of("2dw").to_string(), "2dw");
}

#[test]
fn shift_with_a_letter_becomes_the_capital() {
    let event = KeyEvent::new(KeyCode::Char('g'), KeyModifiers::shift());
    assert_eq!(KeyCombo::from_event(&event), ch('G'));
    let event = KeyEvent::new(KeyCode::Char('1'), KeyModifiers::shift());
    assert_eq!(KeyCombo::from_event(&event), KeyCombo::new(KeyCode::Char('1'), KeyModifiers::shift()));
}

#[test]
fn parses_binding_strings() {
    let seq = KeyComboSequence::parse_sequence("f{c}").unwrap();
    assert_eq!(seq.items, vec![KeyPattern::Exact(ch('f')), KeyPattern::AnyChar]);
    let seq = KeyComboSequence::parse_sequence("gg").unwrap();
    assert_eq!(seq.items, vec![KeyPattern::Exact(ch('g')), KeyPattern::Exact(ch('g'))]);
    let seq = KeyComboSequence::parse_sequence("C-x").unwrap();
    assert_eq!(seq.items, vec![KeyPattern::Exact(KeyCombo::new(KeyCode::Char('x'), KeyModifiers::control()))]);
    let seq = KeyComboSequence::parse_sequence("Left").unwrap();
    assert_eq!(seq.len(), 1);
    let seq = KeyComboSequence::parse_sequence("{c}").unwrap();
    assert_eq!(seq.items, vec![KeyPattern::AnyChar]);
    assert!(KeyComboSequence::parse_sequence("Q-x").is_err());
    assert!(KeyComboSequence::parse_sequence("").unwrap().is_empty());
    let seq = KeyComboSequence::new_from_combos(vec![ch('a'), ch('b')]);
    assert_eq!(seq.items, vec![KeyPattern::Exact(ch('a')), KeyPattern::Exact(ch('b'))]);
}

#[test]
fn the_buffer_matches_patterns_at_its_end() {
    let buffer = buffer_of("3fx");
    assert!(buffer.ends_with_pattern(&KeyComboSequence::parse_sequence("f{c}").unwrap()));
    assert!(!buffer.ends_with_pattern(&KeyComboSequence::parse_sequence("x{c}").unwrap()));
    assert!(!buffer.ends_with_pattern(&KeyComboSequence::new()));
}

#[test]
fn counts_are_read_from_trailing_digits() {
    let mut buffer = buffer_of("d12");
    assert_eq!(peek_count(&buffer), 12);
    assert_eq!(resolve_count(&mut buffer), 12);
    assert_eq!(buffer.len(), 1);
    let mut buffer = buffer_of("x");
    assert_eq!(buffer.pop_trailing_digits(), 1);
    assert_eq!(buffer.len(), 1);
    let mut buffer = buffer_of("99999999999");
    assert_eq!(buffer.pop_trailing_digits(), 1);
    assert!(buffer.is_empty());
    let mut buffer = buffer_of("4294967295");
    assert_eq!(buffer.pop_trailing_digits(), 4294967295);
}

#[test]
fn truncation_drops_from_the_end() {
    let mut buffer = buffer_of("abc");
    buffer.truncate_items(2);
    assert_eq!(buffer.items, vec![ch('a')]);
    buffer.truncate_items(5);
    assert!(buffer.is_empty());
    let mut buffer = buffer_of("ab");
    assert_eq!(buffer.pop(), Some(ch('b')));
    buffer.clear();
    assert_eq!(buffer.pop(), None);
}

#[test]
fn the_longest_binding_wins() {
    let mut map = KeyBindings::new();
    map.bind("g", Action::Undo { count: 1 }).unwrap();
    map.bind("gg", Action::MoveToStartOfDocument { count: 1, select: false }).unwrap();
    let mut buffer = buffer_of("3gg");
    assert_eq!(peek_action(&buffer, &map), Action::MoveToStartOfDocument { count: 3, select: false });
    assert_eq!(resolve_action(&mut buffer, &map), Action::MoveToStartOfDocument { count: 3, select: false });
    assert!(buffer.is_empty());
    let mut buffer = buffer_of("zz");
    assert_eq!(resolve_action(&mut buffer, &map), Action::NoOp);
    assert_eq!(buffer.len(), 2);
}

#[test]
fn binding_again_replaces_the_action() {
    let mut map = KeyBindings::new();
    map.bind("x", Action::DeleteChar { count: 1 }).unwrap();
    map.bind("x", Action::Put { count: 1 }).unwrap();
    assert_eq!(map.len(), 1);
    assert_eq!(*map.action_at(0), Action::Put { count: 1 });
    assert_eq!(map.bind("", Action::Put { count: 1 }), Err("Failed to parse key combo sequence".to_string()));
    assert_eq!(map.bind("Z-q", Action::Put { count: 1 }), Err("Unknown modifier: Z".to_string()));
    assert_eq!(map.len(), 1);
}

#[test]
fn wildcards_take_the_typed_character() {
    let keymap = Keymap::new();
    let mut buffer = buffer_of("2fq");
    assert_eq!(
        resolve_action(&mut buffer, &keymap.motion_actions),
        Action::MoveToNextCharacter { count: 2, select: false, ch: 'q' }
    );
}

#[test]
fn operators_combine_with_motions() {
    let motion = Action::MoveToWord { count: 3, select: false };
    assert_eq!(
        resolve_op_motion_action(motion.clone(), Action::Yank { count: 2 }),
        Action::YankMotion { count: 2, motion: Box::new(motion.clone()) }
    );
    assert_eq!(resolve_op_motion_action(motion, Action::Undo { count: 1 }), Action::NoOp);
}

#[test]
fn the_default_keymap_has_every_binding() {
    let keymap = Keymap::new();
    assert_eq!(keymap.op_actions.len(), 3);
    assert_eq!(keymap.motion_actions.len(), 44);
    assert_eq!(keymap.normal_actions.len(), 17);
    assert_eq!(keymap.mode_actions.len(), 5);
    assert_eq!(keymap.insert_actions.len(), 10);
    assert_eq!(keymap.visual_actions.len(), 1);
}

#[test]
fn lists_of_binding_strings_name_one_sequence() {
    let seq = ["C-x", "C-s"][..].into_seq().unwrap();
    assert_eq!(seq.items.len(), 2);
    assert_eq!(seq.items[0], KeyPattern::Exact(KeyCombo::parse("C-x").unwrap()));
    assert_eq!(seq.items[1], KeyPattern::Exact(KeyCombo::parse("C-s").unwrap()));
    let seq = ["g", "f{c}"][..].into_seq().unwrap();
    assert_eq!(seq.items, vec![KeyPattern::Exact(ch('g')), KeyPattern::Exact(ch('f')), KeyPattern::AnyChar]);
    assert_eq!("gg".into_seq().unwrap().items.len(), 2);
    // The first error among the strings is reported.
    assert_eq!(["a", "Z-q", "Y-q"][..].into_seq().err(), Some("Unknown modifier: Z".to_string()));
}

#[test]
fn a_list_of_strings_can_be_bound() {
    let mut map = KeyBindings::new();
    map.bind(&["C-w", "h"][..], Action::Undo { count: 1 }).unwrap();
    assert_eq!(map.len(), 1);
    let empty: [&str; 0] = [];
    assert_eq!(map.bind(&empty[..], Action::Undo { count: 1 }), Err("Failed to parse key combo sequence".to_string()));
}


#[test]
fn function_keys_are_written_in_decimal() {
    assert_eq!(KeyCombo::new(KeyCode::F(0), KeyModifiers::empty()).to_string(), "F(0)");
    assert_eq!(KeyCombo::new(KeyCode::F(12), KeyModifiers::empty()).to_string(), "F(12)");
    assert_eq!(KeyCombo::new(KeyCode::F(255), KeyModifiers::empty()).to_string(), "F(255)");
}

#[test]
fn printed_combinations_parse_back() {
    let all = KeyModifiers::control().union(&KeyModifiers::alt()).union(&KeyModifiers::shift());
    let combos = [
        KeyCombo::new(KeyCode::Char('f'), KeyModifiers::control()),
        KeyCombo::new(KeyCode::Char('x'), KeyModifiers::control().union(&KeyModifiers::alt())),
        KeyCombo::new(KeyCode::Char('G'), KeyModifiers::empty()),
        KeyCombo::new(KeyCode::Char('1'), KeyModifiers::shift()),
        KeyCombo::new(KeyCode::Char('$'), KeyModifiers::alt()),
        KeyCombo::new(KeyCode::Up, KeyModifiers::shift()),
        KeyCombo::new(KeyCode::BackTab, all),
        KeyCombo::new(KeyCode::PageDown, KeyModifiers::empty()),
        KeyCombo::new(KeyCode::End, KeyModifiers::control()),
    ];
    for combo in combos {
        assert_eq!(KeyCombo::parse(&combo.to_string()).unwrap(), combo);
    }
}
