use remy_core::cx::{CachedView, Cx, Rcx};
use remy_core::flow::{quit, Flow, IntoFlow};
use remy_core::id::{decimal_string, Id};
use remy_core::text::{chars_le, push_chars, sort_by_label, string_from_chars};

#[test]
fn handlers_turn_into_flows() {
    assert_eq!(quit(), Flow::Quit);
    assert_eq!(().into_key_result(), Flow::Handled);
    assert_eq!(Flow::Ignored.into_key_result(), Flow::Ignored);
}

#[test]
fn ids_print_numbers_in_decimal() {
    assert_eq!(Id::from_u32(42).as_str(), "42");
    assert_eq!(Id::from_u32(0).as_str(), "0");
    assert_eq!(Id::from_u64(u64::MAX).as_str(), "18446744073709551615");
    assert_eq!(Id::from_str("main").as_str(), "main");
    assert_eq!(Id::from_string("side".to_string()), Id("side".to_string()));
    assert_eq!(decimal_string(1000), "1000");
    assert_eq!(decimal_string(9), "9");
}

#[test]
fn strings_are_built_from_characters() {
    assert_eq!(string_from_chars(&vec!['a', 'b', 'c']), "abc");
    assert_eq!(string_from_chars(&vec![]), "");
    let mut v = vec!['x'];
    push_chars(&mut v, &['y', 'z']);
    assert_eq!(v, vec!['x', 'y', 'z']);
}

#[test]
fn labels_sort_lexicographically() {
    assert!(chars_le(&vec!['a'], &vec!['b']));
    assert!(chars_le(&vec!['a'], &vec!['a', 'b']));
    assert!(!chars_le(&vec!['b'], &vec!['a', 'z']));
    assert!(chars_le(&vec![], &vec![]));
    let items = vec![
        (vec!['q'], 1),
        (vec!['C', 't', 'r', 'l'], 2),
        (vec!['g', ',', ' ', 'g'], 3),
        (vec!['a'], 4),
    ];
    let sorted = sort_by_label(items);
    let order: Vec<i32> = sorted.iter().map(|(_, n)| *n).collect();
    assert_eq!(order, vec![2, 4, 3, 1]);
}

#[test]
fn contexts_carry_their_owner() {
    assert_eq!(Cx::new(3).owner_id, 3);
    assert_eq!(Rcx::new(4).owner_id, 4);
    let v = CachedView::new(5, "view");
    assert_eq!(v.owner_id, 5);
    assert_eq!(v.view, "view");
    let g = Cx::new(8).focus_group(2);
    assert_eq!((g.group_id, g.owner_id, g.wrap), (2, 8, true));
}
