use remy_core::bind::{BindKind, ChordPolicy, IntoBind};
use remy_core::chord::Chord;
use remy_core::key::{char_from_event, Code, Key, KeyCode, KeyEvent, KeyEventKind};
use remy_core::keys::Keys;
use remy_core::mods::{EventModifiers, Mods};
use remy_core::period::Period;

fn no_mods() -> EventModifiers {
    EventModifiers { shift: false, control: false, alt: false, other: false }
}

fn press(code: KeyCode, modifiers: EventModifiers) -> KeyEvent {
    KeyEvent { code, modifiers, kind: KeyEventKind::Press }
}

#[test]
fn key_labels_name_modifiers_then_key() {
    assert_eq!(Key::ctrl('x').label(), "Ctrl+X");
    assert_eq!(Key::ctrl('X').label(), "Ctrl+X");
    assert_eq!(Key::alt('q').label(), "Alt+Q");
    assert_eq!(Key::from('A').label(), "Shift+A");
    assert_eq!(Key::from('a').label(), "a");
    assert_eq!(Key::from(' ').label(), "Space");
    assert_eq!(Key::f(5).label(), "F5");
    assert_eq!(Key::f(12).label(), "F12");
    assert_eq!(Key::f(100).label(), "F100");
    assert_eq!(Key::esc().label(), "Esc");
    assert_eq!(Key::backtab().label(), "Shift+Tab");
    assert_eq!(Key::page_down().label(), "PageDown");
    assert_eq!(Key::alt('q').with_shift().label(), "Alt+Shift+Q");
    assert_eq!(Key::ctrl('c').with_alt().label(), "Ctrl+Alt+C");
}

#[test]
fn capital_letter_is_shifted_small_letter() {
    assert_eq!(Key::from('A'), Key::shift(Key::from('a')));
    assert_eq!(Key::from('Z'), Key::from('z').with_shift());
    assert_eq!(Key::from('A').code, Code::Char('a'));
    assert_eq!(Key::from('A').modifiers, Mods::shift());
}

#[test]
fn shift_is_dropped_from_symbols() {
    assert_eq!(Key::shift(Key::from('?')), Key::from('?'));
    assert_eq!(Key::from('1').with_shift(), Key::from('1'));
    assert_eq!(Key::from('?').modifiers, Mods::none());
}

#[test]
fn normalizing_twice_changes_nothing() {
    let k = Key::modified(Key::from('B'), Mods::ctrl());
    assert_eq!(Key::modified(k, Mods::none()), k);
    assert_eq!(k.modifiers, Mods(5));
    assert_eq!(k.code, Code::Char('b'));
}

#[test]
fn key_from_event_normalizes_characters() {
    let shifted = EventModifiers { shift: true, ..no_mods() };
    assert_eq!(Key::from_event(press(KeyCode::Char('A'), shifted)), Some(Key::from('A')));
    assert_eq!(Key::from_event(press(KeyCode::Char('A'), no_mods())), Some(Key::from('A')));
    assert_eq!(Key::from_event(press(KeyCode::Char('!'), shifted)), Some(Key::from('!')));
    assert_eq!(Key::from_event(press(KeyCode::BackTab, no_mods())), Some(Key::backtab()));
    assert_eq!(Key::from_event(press(KeyCode::F(3), no_mods())), Some(Key::f(3)));
    let ctrl = EventModifiers { control: true, ..no_mods() };
    assert_eq!(Key::from_event(press(KeyCode::Char('c'), ctrl)), Some(Key::ctrl('c')));
}

#[test]
fn key_from_event_refuses_unnamed_keys() {
    assert_eq!(Key::from_event(press(KeyCode::Other, no_mods())), None);
    let meta = EventModifiers { other: true, ..no_mods() };
    assert_eq!(Key::from_event(press(KeyCode::Char('a'), meta)), None);
}

#[test]
fn typed_characters_exclude_ctrl_and_alt() {
    assert_eq!(char_from_event(&press(KeyCode::Char('x'), no_mods())), Some('x'));
    let shifted = EventModifiers { shift: true, ..no_mods() };
    assert_eq!(char_from_event(&press(KeyCode::Char('X'), shifted)), Some('X'));
    let ctrl = EventModifiers { control: true, ..no_mods() };
    assert_eq!(char_from_event(&press(KeyCode::Char('x'), ctrl)), None);
    let alt = EventModifiers { alt: true, ..no_mods() };
    assert_eq!(char_from_event(&press(KeyCode::Char('x'), alt)), None);
    assert_eq!(char_from_event(&press(KeyCode::Enter, no_mods())), None);
}

#[test]
fn mods_combine_and_remove() {
    let m = Mods::ctrl().bitor(Mods::shift());
    assert_eq!(m, Mods(5));
    assert!(m.contains(Mods::ctrl()));
    assert!(!m.contains(Mods::alt()));
    let mut n = m;
    n.remove(Mods::ctrl());
    assert_eq!(n, Mods::shift());
    n.bitor_assign(Mods::alt());
    assert_eq!(n, Mods(6));
    assert!(Mods::none().is_empty());
    let all = EventModifiers { shift: true, control: true, alt: true, other: false };
    assert_eq!(Mods::from_modifiers(all), Some(Mods(7)));
    assert_eq!(Mods::from_modifiers(EventModifiers { other: true, ..no_mods() }), None);
}

#[test]
fn chord_label_joins_keys() {
    let c = Chord::from_keys(&[Key::from('g'), Key::from('g')]);
    assert_eq!(c.label(), "g, g");
    let d = Key::ctrl('x').followed_by(Key::ctrl('s'));
    assert_eq!(d.label(), "Ctrl+X, Ctrl+S");
    assert_eq!(Chord::new().label(), "");
    assert_eq!(Chord::from_key(Key::f(1)).label(), "F1");
}

#[test]
fn chord_keys_and_prefixes() {
    let c = Key::chord(&[Key::from('a'), Key::from('b'), Key::from('c')]);
    assert_eq!(c.len(), 3);
    assert!(!c.is_empty());
    assert_eq!(c.first(), Some(Key::from('a')));
    assert_eq!(c.as_slice(), &[Key::from('a'), Key::from('b'), Key::from('c')]);
    let p = c.prefix(2);
    assert_eq!(p.as_slice(), &[Key::from('a'), Key::from('b')]);
    assert!(c.starts_with(&p));
    assert!(!p.starts_with(&c));
    assert!(c.same(&Chord::from_keys(&[Key::from('a'), Key::from('b'), Key::from('c')])));
    assert!(c == Chord::from_keys(&[Key::from('a'), Key::from('b'), Key::from('c')]));
    assert!(!c.same(&p));
    assert!(Chord::new().is_empty());
    assert_eq!(Chord::new().first(), None);
    let copy = c.clone();
    assert_eq!(copy.as_slice(), c.as_slice());
    assert_eq!(copy.label(), "a, b, c");
    let grown = p.followed_by(Key::from('z'));
    assert_eq!(grown.as_slice(), &[Key::from('a'), Key::from('b'), Key::from('z')]);
}

#[test]
fn bindings_name_their_keys() {
    assert_eq!('a'.into_key_binding().as_slice(), &[Key::from('a')]);
    assert_eq!('A'.into_key_binding().as_slice(), &[Key::shift(Key::from('a'))]);
    assert_eq!(Key::esc().into_key_binding().as_slice(), &[Key::esc()]);
    let c = Key::from('g').followed_by(Key::from('h'));
    assert_eq!(c.into_key_binding().as_slice(), &[Key::from('g'), Key::from('h')]);
    assert_eq!(ChordPolicy::default(), ChordPolicy::Discard);
}

#[test]
fn press_binding_dispatches_last_action() {
    let mut keys: Keys<u32> = Keys::new();
    assert_eq!(keys.dispatch(Key::from('q')), None);
    keys.on_press('q', 1);
    assert_eq!(keys.dispatch(Key::from('q')), Some(1));
    keys.on_press('q', 2);
    assert_eq!(keys.dispatch(Key::from('q')), Some(2));
    keys.on_press(Key::ctrl('s'), 3);
    assert_eq!(keys.dispatch(Key::ctrl('s')), Some(3));
    assert_eq!(keys.dispatch(Key::from('s')), None);
    assert_eq!(keys.dispatch(Key::from('q')), Some(2));
    assert!(keys.has_press(&Chord::from_key(Key::from('q'))));
    assert!(!keys.has_chords());
}

#[test]
fn chord_bindings_dispatch_and_list_prefixes() {
    let mut keys: Keys<u32> = Keys::new();
    keys.on_press(Chord::from_keys(&[Key::from('g'), Key::from('g')]), 10);
    keys.on_press(Chord::from_keys(&[Key::from('g'), Key::from('d'), Key::from('x')]), 11);
    assert!(keys.has_chords());
    assert_eq!(keys.dispatch_chord(&Chord::from_keys(&[Key::from('g'), Key::from('g')])), Some(10));
    assert_eq!(keys.dispatch_chord(&Chord::from_keys(&[Key::from('g'), Key::from('d')])), None);
    assert!(keys.is_chord_prefix(&Chord::from_key(Key::from('g'))));
    assert!(keys.is_chord_prefix(&Chord::from_keys(&[Key::from('g'), Key::from('d')])));
    assert!(!keys.is_chord_prefix(&Chord::from_keys(&[Key::from('g'), Key::from('g')])));
    assert!(!keys.is_chord_prefix(&Chord::from_key(Key::from('d'))));
    assert_eq!(keys.dispatch(Key::from('g')), None);
}

#[test]
fn release_and_repeat_bindings() {
    let mut keys: Keys<u32> = Keys::new();
    keys.on_release('r', 5);
    keys.on_repeat(Key::down(), 6);
    assert_eq!(keys.dispatch_release(Key::from('r')), Some(5));
    assert_eq!(keys.dispatch_repeat(Key::down()), Some(6));
    assert_eq!(keys.dispatch(Key::from('r')), None);
    assert!(keys.has_release(Key::from('r')));
    assert!(keys.has_repeat(Key::down()));
    assert!(!keys.has_repeat(Key::up()));
    keys.on_release(Chord::new(), 9);
    assert_eq!(keys.release_binding_keys(), vec![(Key::from('r'), 5)]);
    assert_eq!(keys.repeat_binding_keys(), vec![(Key::down(), 6)]);
}

#[test]
fn many_keys_bound_to_one_action() {
    let mut keys: Keys<u32> = Keys::new();
    keys.on_press_any(vec!['j', 'n'], 4);
    keys.on_release_any(vec![Key::up(), Key::left()], 8);
    keys.on_repeat_any(vec![Key::right()], 9);
    assert_eq!(keys.dispatch(Key::from('j')), Some(4));
    assert_eq!(keys.dispatch(Key::from('n')), Some(4));
    assert_eq!(keys.dispatch_release(Key::left()), Some(8));
    assert_eq!(keys.dispatch_repeat(Key::right()), Some(9));
}

#[test]
fn chord_timeouts_and_policies_per_prefix() {
    let mut keys: Keys<u32> = Keys::new();
    keys.on_press(Chord::from_keys(&[Key::from('g'), Key::from('g')]), 1);
    let g = Chord::from_key(Key::from('g'));
    assert_eq!(keys.timeout_for_prefix(&g), None);
    assert_eq!(keys.policy_for_prefix(&g), ChordPolicy::Discard);
    keys.chord_timeout(Period::from_millis(500));
    keys.chord_policy(ChordPolicy::Fallback);
    assert_eq!(keys.timeout_for_prefix(&g), Some(Period::from_millis(500)));
    assert_eq!(keys.policy_for_prefix(&g), ChordPolicy::Fallback);
    keys.prefix_timeout('g', Period::from_secs(2));
    keys.prefix_policy('g', ChordPolicy::Discard);
    assert_eq!(keys.timeout_for_prefix(&g), Some(Period::from_secs(2)));
    assert_eq!(keys.policy_for_prefix(&g), ChordPolicy::Discard);
    let h = Chord::from_key(Key::from('h'));
    assert_eq!(keys.timeout_for_prefix(&h), Some(Period::from_millis(500)));
    keys.clear_chord_timeout();
    assert_eq!(keys.timeout_for_prefix(&h), None);
    assert_eq!(keys.timeout_for_prefix(&g), Some(Period::from_secs(2)));
}

#[test]
fn merge_prefers_source_bindings() {
    let mut base: Keys<u32> = Keys::new();
    base.on_press('a', 1);
    base.on_press('b', 2);
    base.on_press(Chord::from_keys(&[Key::from('z'), Key::from('z')]), 3);
    let mut src: Keys<u32> = Keys::new();
    src.on_press('b', 20);
    src.on_press('c', 30);
    src.on_press(Chord::from_keys(&[Key::from('z'), Key::from('z')]), 40);
    src.on_release('x', 50);
    base.merge(&src);
    assert_eq!(base.dispatch(Key::from('a')), Some(1));
    assert_eq!(base.dispatch(Key::from('b')), Some(20));
    assert_eq!(base.dispatch(Key::from('c')), Some(30));
    assert_eq!(base.dispatch_chord(&Chord::from_keys(&[Key::from('z'), Key::from('z')])), Some(40));
    assert_eq!(base.dispatch_release(Key::from('x')), Some(50));
    assert!(base.is_chord_prefix(&Chord::from_key(Key::from('z'))));
}

#[test]
fn descriptions_and_labels_in_label_order() {
    let mut keys: Keys<u32> = Keys::new();
    keys.on_press('q', 1);
    keys.on_press(Chord::from_keys(&[Key::from('g'), Key::from('g')]), 2);
    keys.on_press(Key::ctrl('s'), 3);
    let labels = keys.labels();
    assert_eq!(labels, vec!["Ctrl+S".to_string(), "g, g".to_string(), "q".to_string()]);
    let descs = keys.descriptions();
    assert_eq!(descs.len(), 3);
    assert_eq!(descs[0].label, "Ctrl+S");
    assert_eq!(descs[0].kind, BindKind::Single);
    assert_eq!(descs[1].label, "g, g");
    assert_eq!(descs[1].kind, BindKind::Chord);
    assert_eq!(descs[1].keys.as_slice(), &[Key::from('g'), Key::from('g')]);
    assert_eq!(descs[2].kind, BindKind::Single);
    assert_eq!(keys.single_binding_keys().len(), 2);
    assert_eq!(keys.chord_binding_keys().len(), 1);
}

#[test]
fn completions_of_a_prefix() {
    let mut keys: Keys<u32> = Keys::new();
    keys.on_press(Chord::from_keys(&[Key::from('g'), Key::from('t')]), 1);
    keys.on_press(Chord::from_keys(&[Key::from('g'), Key::from('g')]), 2);
    keys.on_press(Chord::from_keys(&[Key::from('d'), Key::from('d')]), 3);
    let done = keys.chord_completions(&Chord::from_key(Key::from('g')));
    let labels: Vec<String> = done.iter().map(|(_, l)| l.clone()).collect();
    assert_eq!(labels, vec!["g, g".to_string(), "g, t".to_string()]);
    assert!(keys.chord_completions(&Chord::from_key(Key::from('x'))).is_empty());
}
