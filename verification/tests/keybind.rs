use amusing::model::keybind::{
    char_key, code_key, control_char_key, control_modifier, no_modifiers, shift_modifier, Binding, KeyCode,
    KeyEvent, KeyEventKind, KeyModifiers, Keybind, KeybindNode,
};
use amusing::model::keys::{split_whitespace, try_into_code, try_into_key_event, try_into_key_events};

fn terminal(keybind: &Keybind, events: &[KeyEvent]) -> Option<Binding> {
    match keybind.translate(events) {
        Some(KeybindNode::Terminal(binding)) => Some(*binding),
        _ => None,
    }
}

fn is_transition(keybind: &Keybind, events: &[KeyEvent]) -> bool {
    matches!(keybind.translate(events), Some(KeybindNode::Transition(_)))
}

#[test]
fn empty_trie_resolves_nothing() {
    let keybind = Keybind::new();
    assert_eq!(keybind.translate(&[]), None);
    assert_eq!(keybind.translate(&[char_key('a')]), None);
}

#[test]
fn default_chords() {
    let keybind = Keybind::default();
    assert!(is_transition(&keybind, &[char_key('g')]));
    assert_eq!(terminal(&keybind, &[char_key('g'), char_key('g')]), Some(Binding::ScrollTop));
    assert_eq!(keybind.translate(&[char_key('g'), char_key('x')]), None);
    assert_eq!(terminal(&keybind, &[char_key('G')]), Some(Binding::ScrollBottom));
    assert_eq!(keybind.translate(&[]), None);
}

#[test]
fn default_bindings() {
    let keybind = Keybind::default();
    let expected = [
        (char_key('q'), Binding::Quit),
        (char_key('N'), Binding::Next),
        (char_key('P'), Binding::Previous),
        (char_key('p'), Binding::Pause),
        (char_key('o'), Binding::Resume),
        (char_key(' '), Binding::Toggle),
        (char_key('S'), Binding::Stop),
        (code_key(KeyCode::Enter), Binding::Play),
        (char_key(']'), Binding::SeekForwards),
        (char_key('['), Binding::SeekBackwards),
        (char_key('>'), Binding::SpeedUp),
        (char_key('<'), Binding::SpeedDown),
        (char_key('='), Binding::VolumeUp),
        (char_key('-'), Binding::VolumeDown),
        (code_key(KeyCode::Up), Binding::ScrollUp),
        (char_key('k'), Binding::ScrollUp),
        (code_key(KeyCode::Down), Binding::ScrollDown),
        (char_key('j'), Binding::ScrollDown),
        (control_char_key('u'), Binding::ScrollManyUp),
        (control_char_key('d'), Binding::ScrollManyDown),
        (char_key('h'), Binding::FocusLeft),
        (code_key(KeyCode::Left), Binding::FocusLeft),
        (char_key('l'), Binding::FocusRight),
        (code_key(KeyCode::Right), Binding::FocusRight),
        (char_key('/'), Binding::StartSearch),
        (code_key(KeyCode::Esc), Binding::EndSearch),
        (char_key('a'), Binding::AddToQueue),
        (char_key('d'), Binding::RemoveFromQueue),
        (code_key(KeyCode::Delete), Binding::ClearQueue),
        (char_key('t'), Binding::ModeGapless),
        (char_key('r'), Binding::ModeRandom),
        (char_key('e'), Binding::ModeSingle),
        (char_key('w'), Binding::ModeSequential),
        (char_key('U'), Binding::MusingUpdate),
        (char_key('1'), Binding::ScreenCover),
        (char_key('2'), Binding::ScreenQueue),
        (char_key('3'), Binding::ScreenLibrary),
    ];
    for (key, binding) in expected {
        assert_eq!(terminal(&keybind, &[key]), Some(binding), "{:?}", key);
    }
    assert_eq!(keybind.translate(&[char_key('z')]), None);
    assert_eq!(keybind.translate(&[control_char_key('q')]), None);
}

#[test]
fn a_terminal_answers_for_longer_sequences_too() {
    let keybind = Keybind::default();
    assert_eq!(terminal(&keybind, &[char_key('q'), char_key('x')]), Some(Binding::Quit));
}

#[test]
fn a_longer_sequence_shadows_a_shorter_one() {
    let mut keybind = Keybind::new();
    keybind.add_keybind(&[char_key('d')], Binding::RemoveFromQueue);
    assert_eq!(terminal(&keybind, &[char_key('d')]), Some(Binding::RemoveFromQueue));
    keybind.add_keybind(&[char_key('d'), char_key('d')], Binding::ClearQueue);
    assert!(is_transition(&keybind, &[char_key('d')]));
    assert_eq!(terminal(&keybind, &[char_key('d'), char_key('d')]), Some(Binding::ClearQueue));
    assert_eq!(keybind.translate(&[char_key('d'), char_key('x')]), None);
}

#[test]
fn a_shorter_sequence_takes_the_place_of_longer_ones() {
    let mut keybind = Keybind::default();
    keybind.add_keybind(&[char_key('g')], Binding::Quit);
    assert_eq!(terminal(&keybind, &[char_key('g')]), Some(Binding::Quit));
    assert_eq!(terminal(&keybind, &[char_key('g'), char_key('g')]), Some(Binding::Quit));
}

#[test]
fn binding_again_replaces_the_binding() {
    let mut keybind = Keybind::default();
    keybind.add_keybind(&[char_key('q')], Binding::Stop);
    assert_eq!(terminal(&keybind, &[char_key('q')]), Some(Binding::Stop));
    keybind.add_keybind(&[], Binding::Quit);
    assert_eq!(terminal(&keybind, &[char_key('q')]), Some(Binding::Stop));
}

#[test]
fn sequences_share_their_starts() {
    let mut keybind = Keybind::new();
    keybind.add_keybind(&[char_key('a'), char_key('b'), char_key('c')], Binding::Next);
    keybind.add_keybind(&[char_key('a'), char_key('b'), char_key('d')], Binding::Previous);
    keybind.add_keybind(&[char_key('a'), char_key('x')], Binding::Stop);
    assert!(is_transition(&keybind, &[char_key('a')]));
    assert!(is_transition(&keybind, &[char_key('a'), char_key('b')]));
    assert_eq!(terminal(&keybind, &[char_key('a'), char_key('b'), char_key('c')]), Some(Binding::Next));
    assert_eq!(terminal(&keybind, &[char_key('a'), char_key('b'), char_key('d')]), Some(Binding::Previous));
    assert_eq!(terminal(&keybind, &[char_key('a'), char_key('x')]), Some(Binding::Stop));
    assert_eq!(keybind.translate(&[char_key('a'), char_key('b'), char_key('e')]), None);
    assert_eq!(keybind.translate(&[char_key('b')]), None);
}

#[test]
fn shift_and_upper_case_are_one_key() {
    let upper = char_key('A');
    let shifted = KeyEvent::new(KeyCode::Char('a'), shift_modifier());
    assert!(upper.is_same_key(&shifted));
    assert_eq!(upper.normalize_case(), KeyEvent::new(KeyCode::Char('A'), shift_modifier()));
    assert_eq!(shifted.normalize_case(), KeyEvent::new(KeyCode::Char('A'), shift_modifier()));
    assert!(!char_key('a').is_same_key(&upper));
    assert_eq!(char_key('a').normalize_case(), char_key('a'));
    let keybind = Keybind::default();
    assert_eq!(terminal(&keybind, &[KeyEvent::new(KeyCode::Char('g'), shift_modifier())]), Some(Binding::ScrollBottom));
    assert_eq!(terminal(&keybind, &[KeyEvent::new(KeyCode::Char('G'), shift_modifier())]), Some(Binding::ScrollBottom));
}

#[test]
fn shift_does_not_change_other_keys() {
    let shifted_digit = KeyEvent::new(KeyCode::Char('1'), shift_modifier());
    assert_eq!(shifted_digit.normalize_case(), shifted_digit);
    let shifted_enter = KeyEvent::new(KeyCode::Enter, shift_modifier());
    assert_eq!(shifted_enter.normalize_case(), shifted_enter);
    assert!(!shifted_enter.is_same_key(&code_key(KeyCode::Enter)));
}

#[test]
fn kind_and_state_tell_keys_apart() {
    let press = char_key('q');
    let release = KeyEvent { kind: KeyEventKind::Release, ..press };
    let keypad = KeyEvent { state: 1, ..press };
    assert!(!press.is_same_key(&release));
    assert!(!press.is_same_key(&keypad));
    let keybind = Keybind::default();
    assert_eq!(keybind.translate(&[release]), None);
}

#[test]
fn new_key_events_are_presses() {
    let ev = KeyEvent::new(KeyCode::Tab, control_modifier());
    assert_eq!(ev.kind, KeyEventKind::Press);
    assert_eq!(ev.state, 0);
    assert_eq!(ev.modifiers, KeyModifiers { shift: false, control: true, alt: false, logo: false, hyper: false, meta: false });
    assert_eq!(no_modifiers(), KeyModifiers { shift: false, control: false, alt: false, logo: false, hyper: false, meta: false });
}

#[test]
fn words_of_a_text() {
    assert_eq!(split_whitespace(""), Vec::<&str>::new());
    assert_eq!(split_whitespace("   "), Vec::<&str>::new());
    assert_eq!(split_whitespace("g g"), vec!["g", "g"]);
    assert_eq!(split_whitespace("  C-u\t<SPACE>\n x  "), vec!["C-u", "<SPACE>", "x"]);
    assert_eq!(split_whitespace("a\u{a0}b\u{3000}c"), vec!["a", "b", "c"]);
    assert_eq!(split_whitespace("\u{e9}t\u{e9}"), vec!["\u{e9}t\u{e9}"]);
}

#[test]
fn key_codes_by_name() {
    assert_eq!(try_into_code("a"), Some(KeyCode::Char('a')));
    assert_eq!(try_into_code("<"), Some(KeyCode::Char('<')));
    assert_eq!(try_into_code("<SPACE>"), Some(KeyCode::Char(' ')));
    assert_eq!(try_into_code("<UP_ARROW>"), Some(KeyCode::Up));
    assert_eq!(try_into_code("<DOWN_ARROW>"), Some(KeyCode::Down));
    assert_eq!(try_into_code("<LEFT_ARROW>"), Some(KeyCode::Left));
    assert_eq!(try_into_code("<RIGHT_ARROW>"), Some(KeyCode::Right));
    assert_eq!(try_into_code("<ENTER>"), Some(KeyCode::Enter));
    assert_eq!(try_into_code("<ESCAPE>"), Some(KeyCode::Esc));
    assert_eq!(try_into_code("<TAB>"), Some(KeyCode::Tab));
    assert_eq!(try_into_code("<BACKSPACE>"), Some(KeyCode::Backspace));
    assert_eq!(try_into_code("<DELETE>"), Some(KeyCode::Delete));
    assert_eq!(try_into_code("<HOME>"), Some(KeyCode::Home));
    assert_eq!(try_into_code("<END>"), Some(KeyCode::End));
    assert_eq!(try_into_code("<PAGE_UP>"), Some(KeyCode::PageUp));
    assert_eq!(try_into_code("<PAGE_DOWN>"), Some(KeyCode::PageDown));
    assert_eq!(try_into_code(""), None);
    assert_eq!(try_into_code("ab"), None);
    assert_eq!(try_into_code("<enter>"), None);
    assert_eq!(try_into_code("\u{e9}"), None);
}

#[test]
fn key_events_by_name() {
    assert_eq!(try_into_key_event("x"), Some(char_key('x')));
    assert_eq!(try_into_key_event("C-u"), Some(control_char_key('u')));
    assert_eq!(try_into_key_event("S-a"), Some(KeyEvent::new(KeyCode::Char('a'), shift_modifier())));
    assert_eq!(
        try_into_key_event("C-S-x"),
        Some(KeyEvent::new(
            KeyCode::Char('x'),
            KeyModifiers { shift: true, control: true, alt: false, logo: false, hyper: false, meta: false }
        ))
    );
    assert_eq!(try_into_key_event("C-<ENTER>"), Some(KeyEvent::new(KeyCode::Enter, control_modifier())));
    assert_eq!(try_into_key_event("C--"), Some(control_char_key('-')));
    assert_eq!(try_into_key_event("-"), Some(char_key('-')));
    assert_eq!(try_into_key_event("C-"), None);
    assert_eq!(try_into_key_event("C-S-"), None);
    assert_eq!(try_into_key_event("A-x"), None);
    assert_eq!(try_into_key_event(""), None);
}

#[test]
fn key_sequences_by_name() {
    assert_eq!(try_into_key_events("g g"), Some(vec![char_key('g'), char_key('g')]));
    assert_eq!(try_into_key_events(" C-u  <SPACE> "), Some(vec![control_char_key('u'), char_key(' ')]));
    assert_eq!(try_into_key_events(""), Some(vec![]));
    assert_eq!(try_into_key_events("g nope"), None);
}

#[test]
fn bindings_by_name() {
    assert_eq!(Binding::from_str("quit"), Some(Binding::Quit));
    assert_eq!(Binding::from_str("seek_forwards"), Some(Binding::SeekForwards));
    assert_eq!(Binding::from_str("scroll_many_down"), Some(Binding::ScrollManyDown));
    assert_eq!(Binding::from_str("remove_from_queue"), Some(Binding::RemoveFromQueue));
    assert_eq!(Binding::from_str("musing_update"), Some(Binding::MusingUpdate));
    assert_eq!(Binding::from_str("screen_library"), Some(Binding::ScreenLibrary));
    assert_eq!(Binding::from_str("other"), Some(Binding::Other));
    assert_eq!(Binding::from_str("Quit"), None);
    assert_eq!(Binding::from_str("seekforwards"), None);
    assert_eq!(Binding::from_str(""), None);
}
