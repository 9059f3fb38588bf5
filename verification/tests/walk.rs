use remy_core::chord::Chord;
use remy_core::dispatch::{ChordMachine, ChordOrigin};
use remy_core::flow::Flow;
use remy_core::focus::{FocusEventKind, FocusGroupBuilder};
use remy_core::frame::{render_plan, vanished_overlays, wait_timeout, LoopState, RenderPlan};
use remy_core::key::{Key, KeyCode, KeyEvent, KeyEventKind};
use remy_core::keys::Keys;
use remy_core::mods::EventModifiers;
use remy_core::mouse::{MouseButton, MouseEvent, MouseEventKind, Rect};
use remy_core::period::Period;
use remy_core::policy::throttle_allows;
use remy_core::walk::{after_text, route_event, InputEvent, KeyStep, PressNext, Route, Then};

fn keys_with(c: char, action: u32) -> Keys<u32> {
    let mut k: Keys<u32> = Keys::new();
    k.on_press(c, action);
    k
}

fn layers() -> Vec<(ChordOrigin, Keys<u32>)> {
    let mut focus = keys_with('a', 1);
    focus.on_release('a', 11);
    let view = keys_with('b', 2);
    let mut global = keys_with('a', 3);
    global.on_press('c', 4);
    global.on_repeat('c', 44);
    global.on_press(Chord::from_keys(&[Key::from('g'), Key::from('g')]), 5);
    vec![(ChordOrigin::Focus(1), focus), (ChordOrigin::View(2), view), (ChordOrigin::Global, global)]
}

#[test]
fn first_layer_binding_the_key_wins() {
    let ls = layers();
    let mut m = ChordMachine::new();
    assert!(matches!(m.press_layers(Key::from('a'), &ls, 0, None), KeyStep::Run(1, Then::NextIfIgnored(1))));
    assert!(matches!(m.press_layers(Key::from('a'), &ls, 1, None), KeyStep::Run(3, Then::Finish)));
    assert!(matches!(m.press_layers(Key::from('b'), &ls, 0, None), KeyStep::Run(2, Then::NextIfIgnored(2))));
    assert!(matches!(m.press_layers(Key::from('c'), &ls, 0, None), KeyStep::Run(4, Then::Finish)));
    assert!(matches!(m.press_layers(Key::from('z'), &ls, 0, None), KeyStep::Done(Flow::Handled)));
}

#[test]
fn active_trap_stops_the_walk() {
    let ls = layers();
    let mut m = ChordMachine::new();
    assert!(matches!(m.press_layers(Key::from('c'), &ls, 0, Some(2)), KeyStep::Done(Flow::Handled)));
    assert!(matches!(m.press_layers(Key::from('b'), &ls, 0, Some(2)), KeyStep::Run(2, _)));
}

#[test]
fn chord_prefix_in_a_layer_starts_a_chord() {
    let ls = layers();
    let mut m = ChordMachine::new();
    assert!(matches!(m.press_layers(Key::from('g'), &ls, 0, None), KeyStep::Done(Flow::Handled)));
    assert_eq!(m.pending(), Some(vec![Key::from('g')]));
    assert_eq!(m.pending_chord().map(|p| p.origin), Some(ChordOrigin::Global));
    let global = &ls[2].1;
    assert!(matches!(m.begin_press(Key::from('g'), Some(global), false, false), KeyStep::Run(5, Then::Finish)));
    assert_eq!(m.pending(), None);
}

#[test]
fn begin_press_without_chord_walks() {
    let ls = layers();
    let mut m = ChordMachine::new();
    assert!(matches!(m.begin_press(Key::from('a'), Some(&ls[2].1), false, false), KeyStep::Walk));
}

#[test]
fn stale_chord_is_dropped_before_walking() {
    let ls = layers();
    let mut m = ChordMachine::new();
    m.press_layers(Key::from('g'), &ls, 0, None);
    assert!(matches!(m.begin_press(Key::from('g'), Some(&ls[2].1), true, false), KeyStep::Walk));
    assert_eq!(m.pending(), None);
}

#[test]
fn expired_chord_falls_back_then_walks() {
    let mut global = keys_with('g', 9);
    global.on_press(Chord::from_keys(&[Key::from('g'), Key::from('x')]), 10);
    let mut m = ChordMachine::new();
    m.start_chord(ChordOrigin::Global, Chord::from_key(Key::from('g')), Some(Period::from_millis(1)), Default::default());
    assert!(matches!(m.begin_press(Key::from('x'), Some(&global), false, true), KeyStep::Run(9, Then::NextUnlessQuit(0))));
    assert_eq!(m.pending(), None);
}

#[test]
fn timer_fires_on_expired_chord_only() {
    let global = keys_with('g', 9);
    let mut m = ChordMachine::new();
    assert!(matches!(m.timeout(Some(&global), false, true), KeyStep::Done(Flow::Ignored)));
    m.start_chord(ChordOrigin::Global, Chord::from_key(Key::from('g')), None, Default::default());
    assert!(matches!(m.timeout(Some(&global), false, false), KeyStep::Done(Flow::Ignored)));
    assert!(m.pending().is_some());
    assert!(matches!(m.timeout(Some(&global), false, true), KeyStep::Run(9, Then::Finish)));
    assert_eq!(m.pending(), None);
    m.start_chord(ChordOrigin::Layer(4), Chord::from_key(Key::from('g')), None, Default::default());
    assert!(matches!(m.timeout::<u32>(None, true, true), KeyStep::Done(Flow::Ignored)));
    assert_eq!(m.pending(), None);
    m.start_chord(ChordOrigin::Layer(4), Chord::from_key(Key::from('q')), None, Default::default());
    assert!(matches!(m.timeout(Some(&global), false, true), KeyStep::Done(Flow::Handled)));
}

#[test]
fn release_and_repeat_walk_the_layers() {
    let ls = layers();
    let mut m = ChordMachine::new();
    assert!(matches!(m.release_layers(Key::from('a'), &ls, 0, None), KeyStep::Run(11, Then::NextIfIgnored(1))));
    assert!(matches!(m.release_layers(Key::from('q'), &ls, 0, None), KeyStep::Done(Flow::Handled)));
    assert!(matches!(ChordMachine::repeat_layers(Key::from('c'), &ls, 0, None), KeyStep::Run(44, Then::Finish)));
    assert!(matches!(ChordMachine::repeat_layers(Key::from('c'), &ls, 0, Some(1)), KeyStep::Done(Flow::Handled)));
    m.start_chord(ChordOrigin::View(2), Chord::from_key(Key::from('v')), None, Default::default());
    m.release_layers(Key::from('q'), &ls, 0, None);
    assert_eq!(m.pending(), None);
}

#[test]
fn events_are_routed_by_kind() {
    let none = EventModifiers::default();
    let press = KeyEvent { code: KeyCode::Char('x'), modifiers: none, kind: KeyEventKind::Press };
    match route_event(InputEvent::Key(press)) {
        Route::Press { text, key } => {
            assert_eq!(text, Some('x'));
            assert_eq!(key, Some(Key::from('x')));
        },
        other => panic!("expected a press, got {:?}", other),
    }
    let repeat = KeyEvent { kind: KeyEventKind::Repeat, ..press };
    assert!(matches!(route_event(InputEvent::Key(repeat)), Route::Repeat(k) if k == Key::from('x')));
    let release = KeyEvent { code: KeyCode::Other, kind: KeyEventKind::Release, ..press };
    assert!(matches!(route_event(InputEvent::Key(release)), Route::Ignored));
    assert!(matches!(route_event(InputEvent::Paste("hi".to_string())), Route::Paste(s) if s == "hi"));
    assert!(matches!(route_event(InputEvent::Resize(80, 24)), Route::Resize(80, 24)));
    let mouse = MouseEvent { kind: MouseEventKind::Down(MouseButton::Left), column: 1, row: 2, modifiers: none };
    assert!(matches!(route_event(InputEvent::Mouse(mouse)), Route::Mouse(_)));
    assert!(matches!(route_event(InputEvent::Other), Route::Ignored));
}

#[test]
fn event_loop_waits_for_frame_or_chord() {
    let budget = Period::from_millis(16);
    assert_eq!(wait_timeout(true, budget, Period::from_millis(6), None), Period::from_millis(10));
    assert_eq!(wait_timeout(true, budget, Period::from_millis(20), None), Period::zero());
    assert_eq!(wait_timeout(true, budget, Period::from_millis(6), Some(Period::from_millis(3))), Period::from_millis(3));
    assert_eq!(wait_timeout(true, budget, Period::from_millis(6), Some(Period::from_millis(30))), Period::from_millis(10));
    assert_eq!(wait_timeout(false, budget, Period::from_millis(6), Some(Period::from_millis(30))), Period::from_millis(30));
    assert_eq!(wait_timeout(false, budget, Period::from_millis(6), None), Period::from_secs(10));
}

#[test]
fn frames_are_forced_by_events_and_ended_chords() {
    let mut s = LoopState::new();
    assert!(s.begin_frame(false, false, false));
    assert!(!s.begin_frame(false, false, false));
    assert!(s.begin_frame(false, true, false));
    s.after_event(true);
    assert!(!s.begin_frame(false, false, false));
    s.after_event(false);
    assert!(s.begin_frame(false, false, false));
    s.after_wait(true, true);
    assert!(!s.force_render);
    s.after_wait(true, false);
    assert!(s.force_render);
}

#[test]
fn vanished_overlays_are_those_no_longer_drawn() {
    let a = Rect { x: 0, y: 0, width: 5, height: 5 };
    let b = Rect { x: 1, y: 1, width: 2, height: 2 };
    let c = Rect { x: 9, y: 9, width: 1, height: 1 };
    assert_eq!(vanished_overlays(&[a, b, c], &[b]), vec![a, c]);
    assert!(vanished_overlays(&[a], &[a, b]).is_empty());
    assert!(vanished_overlays(&[], &[a]).is_empty());
}

#[test]
fn cached_components_redraw_only_on_change() {
    assert_eq!(render_plan(false, false, false, false, true, false), RenderPlan::Present);
    assert_eq!(render_plan(false, false, false, false, true, true), RenderPlan::Replay);
    assert_eq!(render_plan(true, false, false, false, true, true), RenderPlan::Redraw { clear: true });
    assert_eq!(render_plan(false, true, false, false, true, true), RenderPlan::Redraw { clear: false });
    assert_eq!(render_plan(false, false, false, true, true, false), RenderPlan::Redraw { clear: true });
    assert_eq!(render_plan(false, false, false, false, false, false), RenderPlan::Redraw { clear: false });
    assert_eq!(render_plan(false, false, true, false, true, false), RenderPlan::Redraw { clear: false });
}

#[test]
fn throttled_tasks_wait_their_interval() {
    assert!(throttle_allows(None, Period::from_secs(1)));
    assert!(!throttle_allows(Some(Period::from_millis(999)), Period::from_secs(1)));
    assert!(throttle_allows(Some(Period::from_secs(1)), Period::from_secs(1)));
}

#[test]
fn focus_groups_wrap_unless_told_not_to() {
    let g = FocusGroupBuilder::new(3, 4);
    assert!(g.wrap);
    assert_eq!(g.group_id, 3);
    assert_eq!(g.owner_id, 4);
    assert!(!g.wrap(false).wrap);
    assert_ne!(FocusEventKind::Focus, FocusEventKind::Blur);
}

#[test]
fn text_handlers_come_before_key_bindings() {
    assert!(matches!(after_text(Flow::Handled, Some(Key::from('a'))), PressNext::Done(Flow::Handled)));
    assert!(matches!(after_text(Flow::Ignored, Some(Key::from('a'))), PressNext::Dispatch(k) if k == Key::from('a')));
    assert!(matches!(after_text(Flow::Ignored, None), PressNext::Done(Flow::Ignored)));
}
