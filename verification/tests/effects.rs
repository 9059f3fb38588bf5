use remy_core::effects::Effects;
use remy_core::proxy::{memo, state, Proxy, State};
use remy_core::queue::{Commit, Op, Queue};

#[test]
fn effects_get_identities_in_order() {
    let mut fx: Effects<&'static str> = Effects::new();
    assert_eq!(fx.register("first"), 0);
    assert_eq!(fx.register("second"), 1);
    assert_eq!(fx.register("third"), 2);
    assert_eq!(fx.next_id(), 3);
}

#[test]
fn reader_runs_when_its_slot_changes() {
    let mut fx: Effects<u8> = Effects::new();
    let a = fx.register(1);
    let b = fx.register(2);
    fx.track_read(Some(a), 10);
    fx.track_read(Some(b), 10);
    fx.track_read(Some(b), 20);
    fx.track_read(Some(a), 10);
    assert_eq!(fx.run_slots(&[10]), vec![a, b]);
    assert_eq!(fx.run_slots(&[20]), vec![b]);
    assert_eq!(fx.run_slots(&[20, 10]), vec![b, a]);
    assert_eq!(fx.run_slots(&[10, 20, 10]), vec![a, b]);
    assert!(fx.run_slots(&[30]).is_empty());
    assert!(fx.run_slots(&[]).is_empty());
}

#[test]
fn reads_outside_an_effect_track_nothing() {
    let mut fx: Effects<u8> = Effects::new();
    let a = fx.register(1);
    fx.track_read(None, 10);
    fx.track_read(Some(a + 5), 10);
    assert!(fx.run_slots(&[10]).is_empty());
}

#[test]
fn disposed_effect_never_runs() {
    let mut fx: Effects<u8> = Effects::new();
    let a = fx.register(1);
    let b = fx.register(2);
    fx.track_read(Some(a), 10);
    fx.track_read(Some(b), 10);
    fx.dispose(a);
    assert_eq!(fx.run_slots(&[10]), vec![b]);
    assert_eq!(fx.run_effect_by_id(a), None);
    fx.dispose(a);
    assert_eq!(fx.run_slots(&[10]), vec![b]);
}

#[test]
fn running_an_effect_forgets_its_reads() {
    let mut fx: Effects<u8> = Effects::new();
    let a = fx.register(7);
    fx.track_read(Some(a), 10);
    assert_eq!(fx.run_effect_by_id(a), Some(&7));
    assert!(fx.run_slots(&[10]).is_empty());
    fx.track_read(Some(a), 11);
    assert_eq!(fx.run_slots(&[11]), vec![a]);
}

#[test]
fn queue_drains_changes_in_order() {
    let mut q: Queue<i32, &'static str> = Queue::new();
    q.push(1, 10);
    q.push_update(2, "inc");
    q.extend(vec![Commit { slot_id: 3, op: Op::Assign(30) }]);
    let drained = q.drain();
    assert_eq!(drained.len(), 3);
    assert_eq!(drained[0].slot_id, 1);
    assert!(matches!(drained[0].op, Op::Assign(10)));
    assert_eq!(drained[1].slot_id, 2);
    assert!(matches!(drained[1].op, Op::Update("inc")));
    assert_eq!(drained[2].slot_id, 3);
    assert!(matches!(drained[2].op, Op::Assign(30)));
    assert!(q.drain().is_empty());
}

#[test]
fn state_handles_name_their_slot() {
    let s: State<i32> = State::new(5);
    assert_eq!(s.id(), 5);
    assert_eq!(s.proxy().id(), 5);
    let p: Proxy<String> = Proxy::new(9);
    assert_eq!(p.id(), 9);
    assert_eq!(state(3).initial, 3);
    let m = memo::<i32, _>(|| 4);
    assert_eq!((m.derive)(), 4);
}
