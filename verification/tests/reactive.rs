use remy_core::cache::{ComponentCaches, ReplayStep};
use remy_core::chord::Chord;
use remy_core::effects::{Batch, Effects};
use remy_core::frame::RenderPlan;
use remy_core::key::Key;
use remy_core::keys::Keys;
use remy_core::memo::Memo;
use remy_core::mouse::Rect;
use remy_core::proxy::{memo, state, Proxy, Slots, State};
use remy_core::queue::{Commit, Op, Queue};
use remy_core::period::Period;
use remy_core::walk::ChordClock;

fn area(w: u16) -> Rect {
    Rect { x: 0, y: 0, width: w, height: 1 }
}

#[test]
fn memo_installs_its_slot_and_effect() {
    let mut fx: Effects<u8> = Effects::new();
    fx.register(0);
    let mut slots: Slots<i32> = Slots::new();
    let mut m: Memo<i32> = Memo::uninit();
    let id = m.install(&mut fx, &mut slots, 12, 40, 1);
    assert_eq!(id, 1);
    assert_eq!(m.id(), 12);
    assert_eq!(m.inner_ref().effect_id, 1);
    assert_eq!(*m.get(&slots), 40);
    assert!(!m.recompute(&mut slots, 40, true));
    assert_eq!(*m.get(&slots), 40);
    assert!(m.recompute(&mut slots, 41, false));
    assert_eq!(*m.get(&slots), 41);
}

#[test]
fn declared_memo_derives_its_first_value() {
    let mut fx: Effects<u8> = Effects::new();
    let mut slots: Slots<i32> = Slots::new();
    let mut m: Memo<i32> = Memo::uninit();
    let id = memo(|| 6 * 7).install(&mut m, &mut fx, &mut slots, 3, 9);
    assert_eq!(id, 0);
    assert_eq!(*m.get(&slots), 42);
}

#[test]
fn applied_commits_are_read_back() {
    let mut slots: Slots<i32> = Slots::new();
    let count: State<i32> = state(0).install(&mut slots, 4);
    let mut q: Queue<i32, fn(i32) -> i32> = Queue::new();
    count.set(&mut q, 5);
    count.update(&mut q, |c| c + 1);
    q.push_update(9, |c| c * 100);
    let dirty = slots.apply(q.drain());
    assert_eq!(dirty, vec![4, 4]);
    assert_eq!(*count.peek(&slots), 6);
    count.update(&mut q, |c| c - 1);
    assert_eq!(slots.apply(q.drain()), vec![4]);
    assert_eq!(*count.peek(&slots), 5);
    assert_eq!(slots.apply_one(Commit { slot_id: 7, op: Op::<i32, fn(i32) -> i32>::Assign(1) }), Some(7));
    assert_eq!(*slots.read(7), 1);
}

#[test]
fn toggling_twice_restores_the_flag() {
    let mut slots: Slots<bool> = Slots::new();
    let flag: State<bool> = state(true).install(&mut slots, 1);
    let mut q: Queue<bool, fn(bool) -> bool> = Queue::new();
    flag.toggle(&slots, &mut q);
    slots.apply(q.drain());
    assert!(!*flag.peek(&slots));
    flag.toggle(&slots, &mut q);
    slots.apply(q.drain());
    assert!(*flag.peek(&slots));
}

#[test]
fn chord_clock_counts_down() {
    let mut c = ChordClock::new();
    assert!(!c.expired(Period::from_secs(100)));
    assert_eq!(c.left(Period::zero()), None);
    c.restart(Some(Period::from_millis(500)), Period::from_secs(1));
    assert!(!c.expired(Period::from_millis(1200)));
    assert_eq!(c.left(Period::from_millis(1200)), Some(Period::from_millis(300)));
    assert!(c.expired(Period::from_millis(1500)));
    assert_eq!(c.left(Period::from_secs(9)), Some(Period::zero()));
    c.restart(None, Period::zero());
    assert!(!c.expired(Period::from_secs(9)));
}

#[test]
fn batched_effects_wait_for_the_batch() {
    let mut fx: Effects<u8> = Effects::new();
    let a = fx.register(1);
    let b = fx.register(2);
    fx.track_reads(Some(a), &[10, 11, 10]);
    fx.track_reads(Some(b), &[11]);
    let mut batch = Batch { active: true, queue: vec![9] };
    assert!(fx.schedule(&[11], &mut batch).is_empty());
    assert_eq!(batch.queue, vec![9, a, b]);
    batch.active = false;
    assert_eq!(fx.schedule(&[10], &mut batch), vec![a]);
    assert_eq!(batch.queue, vec![9, a, b]);
}

#[test]
fn rerun_effect_subscribes_to_what_it_read() {
    let mut fx: Effects<u8> = Effects::new();
    let a = fx.register(1);
    fx.track_reads(Some(a), &[1, 2]);
    assert_eq!(fx.run_effect_by_id(a), Some(&1));
    fx.track_reads(Some(a), &[2, 3, 3]);
    assert!(fx.run_slots(&[1]).is_empty());
    assert_eq!(fx.run_slots(&[3]), vec![a]);
    assert_eq!(fx.run_slots(&[2, 3]), vec![a]);
}

#[test]
fn disposing_unknown_effect_changes_nothing() {
    let mut fx: Effects<u8> = Effects::new();
    let a = fx.register(1);
    fx.track_read(Some(a), 5);
    fx.dispose(a + 7);
    assert_eq!(fx.run_slots(&[5]), vec![a]);
}

#[test]
fn state_installs_then_reads_back() {
    let mut slots: Slots<i32> = Slots::new();
    let count: State<i32> = state(0).install(&mut slots, 4);
    assert_eq!(count.id(), 4);
    assert_eq!(*count.peek(&slots), 0);
    let mut q: Queue<i32, fn(&mut i32)> = Queue::new();
    count.set(&mut q, 5);
    count.proxy().set(&mut q, 6);
    let p: Proxy<i32> = Proxy::from(State::<i32>::new(4));
    assert_eq!(p.id(), 4);
    assert_eq!(p.with(&slots, |v| *v + 1), 1);
    let drained = q.drain();
    assert_eq!(drained.len(), 2);
    assert!(drained.iter().all(|c| c.slot_id == 4));
    assert!(matches!(drained[1].op, Op::Assign(6)));
    let mut fx: Effects<u8> = Effects::new();
    let e = fx.register(0);
    assert_eq!(count.with_tracked(&slots, &mut fx, Some(e), |v| *v), 0);
    assert_eq!(fx.run_slots(&[4]), vec![e]);
}

#[test]
fn toggling_queues_the_opposite() {
    let mut slots: Slots<bool> = Slots::new();
    let flag: State<bool> = state(true).install(&mut slots, 1);
    let mut q: Queue<bool, ()> = Queue::new();
    flag.toggle(&slots, &mut q);
    assert!(matches!(q.drain()[0].op, Op::Assign(false)));
}

#[test]
fn cached_component_replays_then_redraws() {
    let mut caches: ComponentCaches<u32, u32> = ComponentCaches::new();
    assert_eq!(caches.plan(1, area(10), &[], false), RenderPlan::Redraw { clear: false });
    caches.record_render(1, area(10), vec![100], vec![200], vec![7], vec![8], None, vec![2]);
    caches.record_render(2, area(5), vec![200], vec![], vec![9], vec![], Some(1), vec![]);
    assert_eq!(caches.plan(1, area(10), &[300], false), RenderPlan::Replay);
    assert_eq!(caches.plan(1, area(10), &[200], false), RenderPlan::Redraw { clear: false });
    assert_eq!(caches.plan(1, area(10), &[100], false), RenderPlan::Redraw { clear: true });
    assert_eq!(caches.plan(1, area(11), &[], false), RenderPlan::Redraw { clear: false });
    assert_eq!(caches.plan(1, area(10), &[], true), RenderPlan::Redraw { clear: true });
    assert_eq!(
        caches.replay_order(1),
        vec![ReplayStep::Region(1, 7), ReplayStep::Overlay(8), ReplayStep::Region(2, 9)]
    );
    caches.mark_mouse_dirty(2);
    assert_eq!(caches.plan(2, area(5), &[], false), RenderPlan::Redraw { clear: false });
    caches.record_render(3, area(1), vec![], vec![], vec![], vec![], None, vec![]);
    assert_eq!(caches.plan(3, area(1), &[], false), RenderPlan::Present);
    assert!(caches.replay_order(4).is_empty());
}

#[test]
fn labels_follow_descriptions() {
    let mut keys: Keys<u32> = Keys::new();
    keys.on_press('b', 1);
    keys.on_press(Chord::from_keys(&[Key::from('a'), Key::from('a')]), 2);
    let labels = keys.labels();
    let descs: Vec<String> = keys.descriptions().into_iter().map(|d| d.label).collect();
    assert_eq!(labels, descs);
    assert!(Chord::default().is_empty());
}
