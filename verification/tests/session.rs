//! Tests of the mode state machine, key dispatch, and whole-session
//! scenarios driven one key at a time.

use explore::machine::{
    action_of_key, handle_key, step, Action, KeyBindingsMap, NavigationBindingsMap,
    PeekingBindingsMap, StepEffect,
};
use explore::mode::Mode;
use explore::nav::{resolve, NavigationState};
use explore::path::PathMember;
use explore::value::Value;

fn idx(position: usize, empty: bool) -> PathMember {
    PathMember::Index { position, empty_at_creation: empty }
}

fn key(name: &str, empty: bool) -> PathMember {
    PathMember::Key { name: name.to_string(), empty_at_creation: empty }
}

fn bindings() -> KeyBindingsMap {
    KeyBindingsMap {
        quit: 'q',
        insert: 'i',
        normal: 'n',
        peek: 'p',
        navigation: NavigationBindingsMap { left: 'h', down: 'j', up: 'k', right: 'l' },
        peeking: PeekingBindingsMap { quit: 'x', all: 'a', current: 'c', under: 'u' },
    }
}

/// `{"a": [1, 2, 3], "b": "x"}`
fn record_root() -> Value {
    Value::Record(vec![
        (
            "a".to_string(),
            Value::List(vec![Value::Int(1), Value::Int(2), Value::Int(3)]),
        ),
        ("b".to_string(), Value::Str("x".to_string())),
    ])
}

/// A state focused at `a[1]` (the value `2`) of [`record_root`].
fn state_at_a1(root: &Value) -> NavigationState {
    let mut s = NavigationState::init(root);
    let b = bindings();
    handle_key(&mut s, root, &b, 'l').unwrap(); // descend into "a"
    handle_key(&mut s, root, &b, 'j').unwrap(); // next sibling: index 1
    assert_eq!(s.focus_path, vec![key("a", false), idx(1, false)]);
    s
}

#[test]
fn mode_default_is_normal() {
    assert_eq!(Mode::default(), Mode::Normal);
}

#[test]
fn mode_labels() {
    assert_eq!(Mode::Normal.label(), "NORMAL");
    assert_eq!(Mode::Insert.label(), "INSERT");
    assert_eq!(Mode::Peeking.label(), "PEEKING");
}

#[test]
fn scenario_list_wraps_after_three_moves_down() {
    let root = Value::List(vec![Value::Int(10), Value::Int(20), Value::Int(30)]);
    let b = bindings();
    let mut s = NavigationState::init(&root);
    assert_eq!(s.focus_path, vec![idx(0, false)]);
    assert_eq!(resolve(&root, &s.focus_path).unwrap(), &Value::Int(10));

    handle_key(&mut s, &root, &b, 'j').unwrap();
    assert_eq!(s.focus_path, vec![idx(1, false)]);
    assert_eq!(resolve(&root, &s.focus_path).unwrap(), &Value::Int(20));

    handle_key(&mut s, &root, &b, 'j').unwrap();
    assert_eq!(s.focus_path, vec![idx(2, false)]);
    assert_eq!(resolve(&root, &s.focus_path).unwrap(), &Value::Int(30));

    handle_key(&mut s, &root, &b, 'j').unwrap();
    assert_eq!(s.focus_path, vec![idx(0, false)]);
    assert_eq!(resolve(&root, &s.focus_path).unwrap(), &Value::Int(10));
}

#[test]
fn peek_under_returns_exact_focused_value() {
    let root = record_root();
    let mut s = state_at_a1(&root);
    let b = bindings();
    assert_eq!(handle_key(&mut s, &root, &b, 'p').unwrap(), StepEffect::Continue);
    assert_eq!(s.mode, Mode::Peeking);
    assert_eq!(handle_key(&mut s, &root, &b, 'u').unwrap(), StepEffect::ExitAt);
    assert_eq!(resolve(&root, &s.focus_path).unwrap(), &Value::Int(2));
}

#[test]
fn peek_current_returns_parent_container() {
    let root = record_root();
    let mut s = state_at_a1(&root);
    let b = bindings();
    handle_key(&mut s, &root, &b, 'p').unwrap();
    assert_eq!(handle_key(&mut s, &root, &b, 'c').unwrap(), StepEffect::ExitAt);
    assert_eq!(s.focus_path, vec![key("a", false)]);
    assert_eq!(
        resolve(&root, &s.focus_path).unwrap(),
        &Value::List(vec![Value::Int(1), Value::Int(2), Value::Int(3)]),
    );
}

#[test]
fn peek_all_returns_whole_root_regardless_of_focus() {
    let root = record_root();
    let mut s = state_at_a1(&root);
    let b = bindings();
    handle_key(&mut s, &root, &b, 'p').unwrap();
    assert_eq!(handle_key(&mut s, &root, &b, 'a').unwrap(), StepEffect::ExitAll);
    // the root is handed back unchanged, whatever the focus was
    assert_eq!(root, record_root());
    assert_eq!(s.focus_path, vec![key("a", false), idx(1, false)]);
}

#[test]
fn peek_quit_returns_to_normal_without_ending() {
    let root = record_root();
    let mut s = NavigationState::init(&root);
    let b = bindings();
    handle_key(&mut s, &root, &b, 'p').unwrap();
    assert_eq!(s.mode, Mode::Peeking);
    assert_eq!(handle_key(&mut s, &root, &b, 'x').unwrap(), StepEffect::Continue);
    assert_eq!(s.mode, Mode::Normal);
}

#[test]
fn quit_ends_session_in_any_mode() {
    let root = record_root();
    let mut s = NavigationState::init(&root);
    assert_eq!(step(&mut s, &root, Action::Quit).unwrap(), StepEffect::ExitNothing);
    s.mode = Mode::Insert;
    assert_eq!(step(&mut s, &root, Action::Quit).unwrap(), StepEffect::ExitNothing);
    s.mode = Mode::Peeking;
    assert_eq!(step(&mut s, &root, Action::Quit).unwrap(), StepEffect::ExitNothing);
}

#[test]
fn insert_mode_gates_navigation() {
    let root = record_root();
    let b = bindings();
    let mut s = NavigationState::init(&root);
    handle_key(&mut s, &root, &b, 'i').unwrap();
    assert_eq!(s.mode, Mode::Insert);
    for k in ['h', 'j', 'k', 'l'] {
        assert_eq!(handle_key(&mut s, &root, &b, k).unwrap(), StepEffect::Continue);
        assert_eq!(s.focus_path, vec![key("a", false)]);
        assert_eq!(s.mode, Mode::Insert);
    }
}

#[test]
fn peeking_mode_gates_navigation() {
    let root = record_root();
    let b = bindings();
    let mut s = NavigationState::init(&root);
    handle_key(&mut s, &root, &b, 'p').unwrap();
    for k in ['h', 'j', 'k', 'l'] {
        assert_eq!(handle_key(&mut s, &root, &b, k).unwrap(), StepEffect::Continue);
        assert_eq!(s.focus_path, vec![key("a", false)]);
        assert_eq!(s.mode, Mode::Peeking);
    }
}

#[test]
fn enter_normal_leaves_insert_only() {
    let root = record_root();
    let b = bindings();
    let mut s = NavigationState::init(&root);
    // 'n' in NORMAL is inert
    handle_key(&mut s, &root, &b, 'n').unwrap();
    assert_eq!(s.mode, Mode::Normal);
    // 'n' in PEEKING is inert too: only peek-quit leaves PEEKING
    handle_key(&mut s, &root, &b, 'p').unwrap();
    handle_key(&mut s, &root, &b, 'n').unwrap();
    assert_eq!(s.mode, Mode::Peeking);
    handle_key(&mut s, &root, &b, 'x').unwrap();
    // and from INSERT it returns to NORMAL
    handle_key(&mut s, &root, &b, 'i').unwrap();
    handle_key(&mut s, &root, &b, 'n').unwrap();
    assert_eq!(s.mode, Mode::Normal);
}

#[test]
fn peek_sub_actions_inert_outside_peeking() {
    let root = record_root();
    let b = bindings();
    let mut s = NavigationState::init(&root);
    for k in ['a', 'c', 'u', 'x'] {
        assert_eq!(handle_key(&mut s, &root, &b, k).unwrap(), StepEffect::Continue);
        assert_eq!(s.mode, Mode::Normal);
        assert_eq!(s.focus_path, vec![key("a", false)]);
    }
}

#[test]
fn unbound_key_is_silently_dropped() {
    let root = record_root();
    let b = bindings();
    let mut s = NavigationState::init(&root);
    assert_eq!(handle_key(&mut s, &root, &b, 'z').unwrap(), StepEffect::Continue);
    assert_eq!(s.mode, Mode::Normal);
    assert_eq!(s.focus_path, vec![key("a", false)]);
}

#[test]
fn duplicate_binding_resolves_by_priority() {
    // one key bound both to quit and to move-down: quit always wins
    let mut b = bindings();
    b.quit = 'j';
    assert_eq!(action_of_key(&b, 'j'), Some(Action::Quit));
    // one key bound both to enter-peek and to a peeking sub-action:
    // the mode-entry action wins
    let mut b2 = bindings();
    b2.peek = 'u';
    assert_eq!(action_of_key(&b2, 'u'), Some(Action::EnterPeek));
}

#[test]
fn peek_current_on_leaf_root_keeps_empty_path() {
    let root = Value::Str("only".to_string());
    let b = bindings();
    let mut s = NavigationState::init(&root);
    handle_key(&mut s, &root, &b, 'p').unwrap();
    assert_eq!(handle_key(&mut s, &root, &b, 'c').unwrap(), StepEffect::ExitAt);
    assert!(s.focus_path.is_empty());
    assert_eq!(resolve(&root, &s.focus_path).unwrap(), &Value::Str("only".to_string()));
}

#[test]
fn default_state_is_empty_and_normal() {
    let s = NavigationState::default();
    assert!(s.focus_path.is_empty());
    assert!(!s.at_leaf);
    assert_eq!(s.mode, Mode::Normal);
}

#[test]
fn peek_current_pops_even_after_failed_descend() {
    // "current" always means the parent container, even right after a
    // failed descend past a leaf: the pop ignores the leaf flag
    let root = record_root();
    let b = bindings();
    let mut s = state_at_a1(&root);
    handle_key(&mut s, &root, &b, 'l').unwrap(); // a[1] is a leaf: sets the flag
    assert!(s.at_leaf);
    handle_key(&mut s, &root, &b, 'p').unwrap();
    assert_eq!(handle_key(&mut s, &root, &b, 'c').unwrap(), StepEffect::ExitAt);
    assert_eq!(s.focus_path, vec![key("a", false)]);
}
