use directory_player::{GoNextMode, Queue};

fn names(list: &[&str]) -> Vec<String> {
    list.iter().map(|name| name.to_string()).collect()
}

#[test]
fn from_iter_starts_at_the_given_index() {
    let queue = Queue::from_iter(names(&["a", "b", "c"]), 1).unwrap();
    assert_eq!(queue.current(), "b");
    assert!(queue.has_previous());
}

#[test]
fn from_iter_refuses_an_index_outside_the_elements() {
    assert!(Queue::from_iter(names(&["a", "b"]), 2).is_none());
    assert!(Queue::from_iter(Vec::<String>::new(), 0).is_none());
    assert!(Queue::from_iter_shuffled(names(&["a", "b"]), 2).is_none());
    assert!(Queue::from_iter_shuffled(Vec::<String>::new(), 0).is_none());
}

#[test]
fn go_next_stops_at_the_end_by_default() {
    let mut queue = Queue::from_iter(names(&["a", "b"]), 0).unwrap();
    assert_eq!(queue.go_next(GoNextMode::Default).map(|s| s.as_str()), Some("b"));
    assert_eq!(queue.go_next(GoNextMode::Default), None);
    assert_eq!(queue.current(), "b");
}

#[test]
fn repeat_all_wraps_to_the_first_element() {
    let mut queue = Queue::from_iter(names(&["a", "b", "c"]), 2).unwrap();
    assert_eq!(queue.go_next(GoNextMode::RepeatAll).map(|s| s.as_str()), Some("a"));
    assert!(!queue.has_previous());
}

#[test]
fn repeat_all_on_a_single_element_stays() {
    let mut queue = Queue::from_iter(names(&["only"]), 0).unwrap();
    assert_eq!(queue.go_next(GoNextMode::RepeatAll).map(|s| s.as_str()), Some("only"));
    assert_eq!(queue.go_next(GoNextMode::Default), None);
}

#[test]
fn go_previous_is_clamped_at_the_start() {
    let mut queue = Queue::from_iter(names(&["a", "b", "c"]), 1).unwrap();
    assert_eq!(queue.go_previous_clamped(), "a");
    assert_eq!(queue.go_previous_clamped(), "a");
    assert!(!queue.has_previous());
}

#[test]
fn shuffled_queue_starts_with_the_chosen_element() {
    for start in 0..4 {
        let queue = Queue::from_iter_shuffled(names(&["x", "y", "z", "w"]), start).unwrap();
        assert_eq!(queue.current(), ["x", "y", "z", "w"][start]);
        assert!(!queue.has_previous());
    }
}

#[test]
fn shuffle_preserves_current() {
    let queue = Queue::from_iter(names(&["x", "y", "z", "w"]), 1).unwrap();
    let mut shuffled = queue.to_shuffled();
    assert_eq!(shuffled.current(), "y");
    let mut visited = Vec::new();
    while let Some(next) = shuffled.go_next(GoNextMode::Default) {
        visited.push(next.clone());
    }
    assert_eq!(visited.len(), 3);
    assert!(!visited.contains(&"y".to_string()));
    visited.sort();
    assert_eq!(visited, names(&["w", "x", "z"]));
}

#[test]
fn shuffled_queue_revisits_current_only_after_wrapping() {
    let queue = Queue::from_iter(names(&["x", "y", "z", "w"]), 1).unwrap();
    let mut shuffled = queue.to_shuffled();
    for _ in 0..3 {
        assert_ne!(shuffled.go_next(GoNextMode::RepeatAll).unwrap(), "y");
    }
    assert_eq!(shuffled.go_next(GoNextMode::RepeatAll).unwrap(), "y");
}

#[test]
fn shuffle_toggle_keeps_current() {
    for start in 0..5 {
        let elements = names(&["a", "b", "c", "d", "e"]);
        let mut queue = Queue::from_iter(elements.clone(), start).unwrap().to_shuffled();
        queue.go_next(GoNextMode::Default);
        queue.go_next(GoNextMode::Default);
        let playing = queue.current().clone();
        let given_index = elements.iter().position(|e| *e == playing).unwrap();
        let mut unshuffled = queue.to_unshuffled();
        assert_eq!(*unshuffled.current(), playing);
        assert_eq!(unshuffled.has_previous(), given_index > 0);
        let next = unshuffled.go_next(GoNextMode::RepeatAll).unwrap();
        assert_eq!(*next, elements[(given_index + 1) % elements.len()]);
    }
}

#[test]
fn to_shuffled_twice_changes_nothing() {
    let mut once = Queue::from_iter(names(&["a", "b", "c", "d"]), 2).unwrap().to_shuffled();
    let mut order = vec![once.current().clone()];
    while let Some(next) = once.go_next(GoNextMode::Default) {
        order.push(next.clone());
    }
    let mut twice = once.to_shuffled();
    assert_eq!(twice.current(), order.last().unwrap());
    for expected in order.iter().rev().skip(1) {
        assert_eq!(twice.go_previous_clamped(), expected);
    }
}

#[test]
fn to_unshuffled_of_an_unshuffled_queue_changes_nothing() {
    let queue = Queue::from_iter(names(&["a", "b", "c"]), 2).unwrap().to_unshuffled();
    assert_eq!(queue.current(), "c");
    assert!(queue.has_previous());
}

#[test]
fn clone_keeps_order_and_position() {
    let queue = Queue::from_iter(names(&["a", "b", "c"]), 1).unwrap();
    let mut copy = queue.clone();
    assert_eq!(copy.current(), "b");
    assert_eq!(copy.go_next(GoNextMode::Default).map(|s| s.as_str()), Some("c"));
    assert_eq!(queue.current(), "b");
}
