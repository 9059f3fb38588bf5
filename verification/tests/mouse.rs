use remy_core::mods::EventModifiers;
use remy_core::mouse::{DispatchResult, MouseButton, MouseEvent, MouseEventKind, Pos, Rect, Region, Regions, Scroll};

fn event(kind: MouseEventKind, column: u16, row: u16) -> MouseEvent {
    MouseEvent { kind, column, row, modifiers: EventModifiers::default() }
}

fn area(x: u16, y: u16, width: u16, height: u16) -> Rect {
    Rect { x, y, width, height }
}

fn button_region(id: u64, rect: Rect, base: u32) -> Region<u32> {
    let mut r: Region<u32> = Region::new(id, rect);
    r.on_press(MouseButton::Left, base + 1);
    r.on_release(MouseButton::Left, base + 2);
    r.on_click(MouseButton::Left, base + 3);
    r
}

#[test]
fn press_then_release_is_a_click() {
    let mut regions: Regions<u32> = Regions::new();
    let mut r = button_region(1, area(0, 0, 10, 5), 100);
    r.focus_on_click();
    regions.register_region(r);
    let (down, _, focus) = regions.dispatch_event(&event(MouseEventKind::Down(MouseButton::Left), 2, 2), None);
    assert!(matches!(down, DispatchResult::Single(101)));
    assert_eq!(focus, None);
    let (up, changed, focus) = regions.dispatch_event(&event(MouseEventKind::Up(MouseButton::Left), 2, 2), None);
    match up {
        DispatchResult::Multiple(v) => assert_eq!(v, vec![102, 103]),
        other => panic!("expected a click, got {:?}", other),
    }
    assert!(!changed);
    assert_eq!(focus, Some(1));
}

#[test]
fn release_without_press_is_no_click() {
    let mut regions: Regions<u32> = Regions::new();
    regions.register_region(button_region(1, area(0, 0, 10, 5), 100));
    let (up, _, focus) = regions.dispatch_event(&event(MouseEventKind::Up(MouseButton::Left), 2, 2), None);
    assert!(matches!(up, DispatchResult::Single(102)));
    assert_eq!(focus, None);
}

#[test]
fn second_release_is_no_click() {
    let mut regions: Regions<u32> = Regions::new();
    regions.register_region(button_region(1, area(0, 0, 10, 5), 100));
    regions.dispatch_event(&event(MouseEventKind::Down(MouseButton::Left), 1, 1), None);
    let (first, _, _) = regions.dispatch_event(&event(MouseEventKind::Up(MouseButton::Left), 1, 1), None);
    assert!(matches!(first, DispatchResult::Multiple(_)));
    let (second, _, _) = regions.dispatch_event(&event(MouseEventKind::Up(MouseButton::Left), 1, 1), None);
    assert!(matches!(second, DispatchResult::Single(102)));
}

#[test]
fn release_on_another_region_is_no_click() {
    let mut regions: Regions<u32> = Regions::new();
    regions.register_region(button_region(1, area(0, 0, 10, 5), 100));
    regions.register_region(button_region(2, area(20, 0, 10, 5), 200));
    regions.dispatch_event(&event(MouseEventKind::Down(MouseButton::Left), 1, 1), None);
    let (up, _, focus) = regions.dispatch_event(&event(MouseEventKind::Up(MouseButton::Left), 21, 1), None);
    assert!(matches!(up, DispatchResult::Single(202)));
    assert_eq!(focus, None);
}

#[test]
fn other_button_is_no_click() {
    let mut regions: Regions<u32> = Regions::new();
    let mut r = button_region(1, area(0, 0, 10, 5), 100);
    r.on_click(MouseButton::Right, 150);
    regions.register_region(r);
    regions.dispatch_event(&event(MouseEventKind::Down(MouseButton::Left), 1, 1), None);
    let (up, _, _) = regions.dispatch_event(&event(MouseEventKind::Up(MouseButton::Right), 1, 1), None);
    assert!(matches!(up, DispatchResult::Nothing));
}

#[test]
fn click_without_handlers_only_focuses() {
    let mut regions: Regions<u32> = Regions::new();
    let mut r: Region<u32> = Region::new(9, area(0, 0, 3, 3));
    r.focus_on_click();
    regions.register_region(r);
    regions.dispatch_event(&event(MouseEventKind::Down(MouseButton::Middle), 0, 0), None);
    let (up, _, focus) = regions.dispatch_event(&event(MouseEventKind::Up(MouseButton::Middle), 0, 0), None);
    assert!(matches!(up, DispatchResult::Nothing));
    assert_eq!(focus, Some(9));
}

#[test]
fn topmost_region_takes_the_event() {
    let mut regions: Regions<u32> = Regions::new();
    regions.register_region(button_region(1, area(0, 0, 20, 20), 100));
    regions.register_region(button_region(2, area(5, 5, 5, 5), 200));
    let (inner, _, _) = regions.dispatch_event(&event(MouseEventKind::Down(MouseButton::Left), 6, 6), None);
    assert!(matches!(inner, DispatchResult::Single(201)));
    let (outer, _, _) = regions.dispatch_event(&event(MouseEventKind::Down(MouseButton::Left), 1, 1), None);
    assert!(matches!(outer, DispatchResult::Single(101)));
    let (none, _, _) = regions.dispatch_event(&event(MouseEventKind::Down(MouseButton::Left), 30, 30), None);
    assert!(matches!(none, DispatchResult::Nothing));
    assert_eq!(regions.region_count(), 2);
}

#[test]
fn area_edges_are_exclusive_at_the_far_side() {
    let r: Region<u32> = Region::new(1, area(2, 3, 4, 5));
    let at = |column: u16, row: u16| Pos { column, row, modifiers: EventModifiers::default() };
    assert!(r.contains(at(2, 3)));
    assert!(r.contains(at(5, 7)));
    assert!(!r.contains(at(6, 3)));
    assert!(!r.contains(at(2, 8)));
    assert!(!r.contains(at(1, 3)));
    let edge: Region<u32> = Region::new(2, area(u16::MAX - 1, 0, 10, 1));
    assert!(edge.contains(at(u16::MAX - 1, 0)));
    assert!(!edge.contains(at(u16::MAX, 0)));
}

#[test]
fn capture_confines_hits_to_its_regions() {
    let mut regions: Regions<u32> = Regions::new();
    let mut trapped = button_region(1, area(0, 0, 20, 20), 100);
    trapped.attach_runtime(Some(50), Some(7));
    regions.register_region(trapped);
    regions.register_region(button_region(2, area(0, 0, 20, 20), 200));
    let (free, _, _) = regions.dispatch_event(&event(MouseEventKind::Down(MouseButton::Left), 1, 1), None);
    assert!(matches!(free, DispatchResult::Single(201)));
    let (captured, _, _) = regions.dispatch_event(&event(MouseEventKind::Down(MouseButton::Left), 1, 1), Some(7));
    assert!(matches!(captured, DispatchResult::Single(101)));
    let (other, _, _) = regions.dispatch_event(&event(MouseEventKind::Down(MouseButton::Left), 1, 1), Some(8));
    assert!(matches!(other, DispatchResult::Nothing));
    assert!(Regions::<u32>::capture_allows(Some(7), Some(7)));
    assert!(!Regions::<u32>::capture_allows(None, Some(7)));
    assert!(Regions::<u32>::capture_allows(None, None));
}

#[test]
fn hover_follows_the_pointer() {
    let mut regions: Regions<u32> = Regions::new();
    let mut a: Region<u32> = Region::new(1, area(0, 0, 10, 10));
    a.wants_hover();
    a.attach_runtime(Some(11), None);
    let mut b: Region<u32> = Region::new(2, area(20, 0, 10, 10));
    b.wants_hover();
    b.attach_runtime(Some(22), None);
    let plain: Region<u32> = Region::new(3, area(0, 0, 5, 5));
    regions.register_region(a);
    regions.register_region(b);
    regions.register_region(plain);
    let (_, changed, _) = regions.dispatch_event(&event(MouseEventKind::Moved, 1, 1), None);
    assert!(changed);
    assert!(regions.is_hovered(1));
    assert_eq!(regions.hovered_owner_ids(), vec![11]);
    let (_, changed, _) = regions.dispatch_event(&event(MouseEventKind::Moved, 2, 2), None);
    assert!(!changed);
    let (_, changed, _) = regions.dispatch_event(&event(MouseEventKind::Drag(MouseButton::Left), 21, 1), None);
    assert!(changed);
    assert!(regions.is_hovered(2));
    assert!(!regions.is_hovered(1));
    let (_, changed, _) = regions.dispatch_event(&event(MouseEventKind::Moved, 50, 50), None);
    assert!(changed);
    assert!(!regions.is_hovered(2));
}

#[test]
fn finish_frame_reports_owners_whose_hover_changed() {
    let mut regions: Regions<u32> = Regions::new();
    let mut a: Region<u32> = Region::new(1, area(0, 0, 10, 10));
    a.wants_hover();
    a.attach_runtime(Some(11), None);
    regions.register_region(a);
    regions.dispatch_event(&event(MouseEventKind::Moved, 1, 1), None);
    regions.begin_frame();
    assert_eq!(regions.region_count(), 0);
    let mut b: Region<u32> = Region::new(2, area(0, 0, 10, 10));
    b.wants_hover();
    b.attach_runtime(Some(22), None);
    regions.register_region(b);
    let (changed, owners) = regions.finish_frame(None);
    assert!(changed);
    assert_eq!(owners, vec![11, 22]);
    let (changed, owners) = regions.finish_frame(None);
    assert!(!changed);
    assert!(owners.is_empty());
}

#[test]
fn scrolling_asks_the_region_hit_to_scroll() {
    let mut regions: Regions<u32> = Regions::new();
    let mut r: Region<u32> = Region::new(1, area(0, 0, 10, 10));
    r.on_scroll(77);
    regions.register_region(r);
    let (up, _, _) = regions.dispatch_event(&event(MouseEventKind::ScrollUp, 1, 1), None);
    assert!(matches!(up, DispatchResult::ScrollBy(77, Scroll { delta_x: 0, delta_y: 1 })));
    let (down, _, _) = regions.dispatch_event(&event(MouseEventKind::ScrollDown, 1, 1), None);
    assert!(matches!(down, DispatchResult::ScrollBy(77, Scroll { delta_x: 0, delta_y: -1 })));
    let (left, _, _) = regions.dispatch_event(&event(MouseEventKind::ScrollLeft, 1, 1), None);
    assert!(matches!(left, DispatchResult::ScrollBy(77, Scroll { delta_x: -1, delta_y: 0 })));
    let (right, _, _) = regions.dispatch_event(&event(MouseEventKind::ScrollRight, 1, 1), None);
    assert!(matches!(right, DispatchResult::ScrollBy(77, Scroll { delta_x: 1, delta_y: 0 })));
    let (outside, _, _) = regions.dispatch_event(&event(MouseEventKind::ScrollUp, 40, 1), None);
    assert!(matches!(outside, DispatchResult::Nothing));
}

#[test]
fn region_handlers_are_found_by_button() {
    let mut r: Region<u32> = Region::new(4, area(0, 0, 1, 1));
    assert_eq!(r.id(), 4);
    assert!(!r.has_click_interest(MouseButton::Left));
    r.on_click(MouseButton::Left, 1);
    r.on_click(MouseButton::Left, 2);
    assert_eq!(r.click_action(MouseButton::Left), Some(1));
    assert!(r.has_click_interest(MouseButton::Left));
    assert_eq!(r.press_action(MouseButton::Left), None);
    assert_eq!(r.release_action(MouseButton::Right), None);
    let e = event(MouseEventKind::Moved, 3, 4);
    assert_eq!(Pos::from_event(&e), Pos { column: 3, row: 4, modifiers: EventModifiers::default() });
}
