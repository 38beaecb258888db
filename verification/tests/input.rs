use advent_core::input::{Input, InputEvent, MouseButton, MouseEventKind, RawEvent};

fn key(code: char, kind: InputEvent) -> Option<RawEvent> {
    Some(RawEvent::Key { code: code as u32, kind })
}

#[test]
fn key_edge_decay() {
    let mut input = Input::new();
    assert!(!input.is_key_down('k'));
    assert!(!input.is_key_up('k'));

    // A press is visible as Down on the following frame.
    input.update(key('k', InputEvent::Down));
    assert!(input.is_key_down('k'));
    assert!(!input.is_key_up('k'));

    // Down persists through eventless frames until a release is observed.
    input.update(None);
    input.update(None);
    assert!(input.is_key_down('k'));

    // A release is visible as Up for exactly one frame.
    input.update(key('k', InputEvent::Up));
    assert!(input.is_key_up('k'));
    assert!(!input.is_key_down('k'));

    // After one more frame the key is absent from the map entirely.
    input.update(None);
    assert!(!input.is_key_up('k'));
    assert!(!input.is_key_down('k'));
    assert!(input.keymap().is_empty());
}

#[test]
fn keys_are_tracked_independently() {
    let mut input = Input::new();
    input.update(key('a', InputEvent::Down));
    input.update(key('b', InputEvent::Down));
    assert!(input.is_key_down('a'));
    assert!(input.is_key_down('b'));
    input.update(key('a', InputEvent::Up));
    assert!(input.is_key_up('a'));
    assert!(input.is_key_down('b'));
    input.update(None);
    assert!(!input.is_key_up('a'));
    assert!(input.is_key_down('b'));
}

#[test]
fn mouse_edge_decay() {
    let mut input = Input::new();
    input.update(Some(RawEvent::Mouse {
        column: 10,
        row: 20,
        kind: MouseEventKind::Down(MouseButton::Left),
    }));
    assert!(input.is_mouse_down(MouseButton::Left));
    assert!(!input.is_mouse_down(MouseButton::Right));
    assert_eq!(input.mouse_position(), (10, 20));

    input.update(None);
    assert!(input.is_mouse_down(MouseButton::Left));

    input.update(Some(RawEvent::Mouse {
        column: 11,
        row: 21,
        kind: MouseEventKind::Up(MouseButton::Left),
    }));
    assert!(input.is_mouse_up(MouseButton::Left));
    assert!(!input.is_mouse_down(MouseButton::Left));
    assert_eq!(input.mouse_position(), (11, 21));

    input.update(None);
    assert!(!input.is_mouse_up(MouseButton::Left));
    assert!(!input.is_mouse_down(MouseButton::Left));
}

#[test]
fn movement_updates_position_without_edges() {
    let mut input = Input::new();
    input.update(Some(RawEvent::Mouse { column: 3, row: 4, kind: MouseEventKind::Moved }));
    assert_eq!(input.mouse_position(), (3, 4));
    assert!(!input.is_mouse_down(MouseButton::Left));
    assert!(!input.is_mouse_up(MouseButton::Left));
}

#[test]
fn resize_is_pending_for_one_frame_only() {
    let mut input = Input::new();
    assert_eq!(input.resized(), None);
    input.update(Some(RawEvent::Resize { width: 132, height: 43 }));
    assert_eq!(input.resized(), Some((132, 43)));
    input.update(None);
    assert_eq!(input.resized(), None);
}
