use remy_core::bind::ChordPolicy;
use remy_core::chord::Chord;
use remy_core::dispatch::{ChordMachine, ChordOrigin, Step};
use remy_core::key::Key;
use remy_core::keys::Keys;
use remy_core::period::Period;

fn bindings() -> Keys<u32> {
    let mut keys: Keys<u32> = Keys::new();
    keys.on_press('g', 1);
    keys.on_press('x', 2);
    keys.on_press(Chord::from_keys(&[Key::from('g'), Key::from('g')]), 10);
    keys.on_press(Chord::from_keys(&[Key::from('g'), Key::from('d'), Key::from('d')]), 11);
    keys
}

#[test]
fn bound_chord_runs_after_its_keys() {
    let keys = bindings();
    let mut m = ChordMachine::new();
    let first = m.dispatch_layer(Key::from('g'), &keys, ChordOrigin::Global);
    assert!(matches!(first, Step::Handled));
    assert_eq!(m.pending(), Some(vec![Key::from('g')]));
    assert_eq!(m.pending_label(), Some("g".to_string()));
    let second = m.dispatch_pending(Key::from('g'), Some(&keys));
    assert!(matches!(second, Step::Run(10)));
    assert_eq!(m.pending(), None);
}

#[test]
fn longer_chord_waits_for_every_key() {
    let keys = bindings();
    let mut m = ChordMachine::new();
    assert!(matches!(m.dispatch_layer(Key::from('g'), &keys, ChordOrigin::View(3)), Step::Handled));
    assert!(matches!(m.dispatch_pending(Key::from('d'), Some(&keys)), Step::Handled));
    assert_eq!(m.pending(), Some(vec![Key::from('g'), Key::from('d')]));
    assert_eq!(m.pending_label(), Some("g, d".to_string()));
    assert_eq!(m.pending_chord().map(|p| p.origin), Some(ChordOrigin::View(3)));
    assert!(matches!(m.dispatch_pending(Key::from('d'), Some(&keys)), Step::Run(11)));
    assert!(m.pending_chord().is_none());
}

#[test]
fn single_key_runs_where_no_chord_begins() {
    let keys = bindings();
    let mut m = ChordMachine::new();
    assert!(matches!(m.dispatch_layer(Key::from('x'), &keys, ChordOrigin::Global), Step::Run(2)));
    assert!(matches!(m.dispatch_layer(Key::from('y'), &keys, ChordOrigin::Global), Step::Unbound));
    assert_eq!(m.pending(), None);
}

#[test]
fn esc_cancels_chord_and_falls_back_to_first_key() {
    let keys = bindings();
    let mut m = ChordMachine::new();
    m.dispatch_layer(Key::from('g'), &keys, ChordOrigin::Global);
    assert!(matches!(m.dispatch_pending(Key::esc(), Some(&keys)), Step::Run(1)));
    assert_eq!(m.pending(), None);
}

#[test]
fn unmatched_key_is_discarded_by_default() {
    let keys = bindings();
    let mut m = ChordMachine::new();
    m.dispatch_layer(Key::from('g'), &keys, ChordOrigin::Global);
    assert!(matches!(m.dispatch_pending(Key::from('q'), Some(&keys)), Step::Handled));
    assert_eq!(m.pending(), None);
}

#[test]
fn unmatched_key_falls_back_under_fallback_policy() {
    let mut keys = bindings();
    keys.chord_policy(ChordPolicy::Fallback);
    let mut m = ChordMachine::new();
    m.dispatch_layer(Key::from('g'), &keys, ChordOrigin::Global);
    assert!(matches!(m.dispatch_pending(Key::from('q'), Some(&keys)), Step::Run(1)));
    assert_eq!(m.pending(), None);
}

#[test]
fn chord_without_bindings_is_dropped() {
    let mut m = ChordMachine::new();
    m.start_chord(ChordOrigin::Layer(1), Chord::from_key(Key::from('g')), None, ChordPolicy::Fallback);
    assert!(matches!(m.dispatch_pending::<u32>(Key::from('g'), None), Step::Handled));
    assert_eq!(m.pending(), None);
}

#[test]
fn chord_at_longest_length_is_dropped() {
    let keys = bindings();
    let mut m = ChordMachine::new();
    let four = Chord::from_keys(&[Key::from('g'), Key::from('a'), Key::from('b'), Key::from('c')]);
    m.start_chord(ChordOrigin::Global, four, None, ChordPolicy::Fallback);
    assert!(matches!(m.dispatch_pending(Key::from('d'), Some(&keys)), Step::Run(1)));
    assert_eq!(m.pending(), None);
}

#[test]
fn chord_state_is_started_updated_and_reset() {
    let mut m = ChordMachine::new();
    assert!(m.pending_chord().is_none());
    m.start_chord(ChordOrigin::Focus(7), Chord::from_key(Key::from('a')), Some(Period::from_secs(1)), ChordPolicy::Discard);
    assert_eq!(m.pending_chord().map(|p| p.timeout), Some(Some(Period::from_secs(1))));
    m.update_chord(Chord::from_keys(&[Key::from('a'), Key::from('b')]), None, ChordPolicy::Fallback);
    let p = m.pending_chord().unwrap();
    assert_eq!(p.origin, ChordOrigin::Focus(7));
    assert_eq!(p.policy, ChordPolicy::Fallback);
    assert_eq!(p.timeout, None);
    m.reset_chord();
    assert!(m.pending_chord().is_none());
}

#[test]
fn release_drops_chord_of_same_origin() {
    let mut keys = bindings();
    keys.on_release('g', 5);
    keys.on_repeat('g', 6);
    let mut m = ChordMachine::new();
    m.dispatch_layer(Key::from('g'), &keys, ChordOrigin::Layer(2));
    assert_eq!(m.dispatch_layer_release(Key::from('g'), &keys, ChordOrigin::Global), Some(5));
    assert!(m.pending_chord().is_some());
    assert_eq!(m.dispatch_layer_release(Key::from('g'), &keys, ChordOrigin::Layer(2)), Some(5));
    assert!(m.pending_chord().is_none());
    assert_eq!(ChordMachine::dispatch_layer_repeat(Key::from('g'), &keys, ChordOrigin::Global), Some(6));
}

#[test]
fn completions_follow_the_chord_under_way() {
    let keys = bindings();
    let mut m = ChordMachine::new();
    assert!(m.completions(&keys).is_empty());
    m.dispatch_layer(Key::from('g'), &keys, ChordOrigin::Global);
    let labels: Vec<String> = m.completions(&keys).iter().map(|(_, l)| l.clone()).collect();
    assert_eq!(labels, vec!["g, d, d".to_string(), "g, g".to_string()]);
}

#[test]
fn fallback_first_runs_single_binding() {
    let keys = bindings();
    assert!(matches!(ChordMachine::fallback_first(Some(&keys), Key::from('x')), Step::Run(2)));
    assert!(matches!(ChordMachine::fallback_first(Some(&keys), Key::from('z')), Step::Handled));
    assert!(matches!(ChordMachine::fallback_first::<u32>(None, Key::from('x')), Step::Handled));
}
