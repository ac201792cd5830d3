use wgpu_2d_sample::input::{InputState, KeyCode};
use wgpu_2d_sample::minimal_input::InputState as MinimalInputState;

#[test]
fn no_key_held_means_no_movement() {
    let input = InputState::default();
    assert_eq!(input.direction(), [0, 0]);
    assert!(!input.plus && !input.minus && !input.reset && !input.rotation_l && !input.rotation_r);
}

#[test]
fn arrows_and_wasd_move() {
    let mut input = InputState::default();
    assert!(input.process_key(KeyCode::ArrowUp, true));
    assert_eq!(input.direction(), [0, -1]);
    assert!(input.process_key(KeyCode::KeyD, true));
    assert_eq!(input.direction(), [1, -1]);
    assert!(input.process_key(KeyCode::ArrowUp, false));
    assert_eq!(input.direction(), [1, 0]);
    assert!(input.process_key(KeyCode::KeyS, true));
    assert_eq!(input.direction(), [1, 1]);
    assert!(input.process_key(KeyCode::ArrowLeft, true));
    assert_eq!(input.direction(), [0, 1]);
}

#[test]
fn opposite_keys_cancel() {
    let mut input = InputState::default();
    input.process_key(KeyCode::KeyA, true);
    input.process_key(KeyCode::ArrowRight, true);
    input.process_key(KeyCode::KeyW, true);
    input.process_key(KeyCode::ArrowDown, true);
    assert_eq!(input.direction(), [0, 0]);
}

#[test]
fn wasd_aliases_match_arrows() {
    let mut a = InputState::default();
    let mut b = InputState::default();
    a.process_key(KeyCode::ArrowLeft, true);
    b.process_key(KeyCode::KeyA, true);
    assert_eq!(a.direction(), b.direction());
    a.process_key(KeyCode::ArrowDown, true);
    b.process_key(KeyCode::KeyS, true);
    assert_eq!(a.direction(), [-1, 1]);
    assert_eq!(a.direction(), b.direction());
}

#[test]
fn last_event_for_a_key_wins() {
    let mut input = InputState::default();
    input.process_key(KeyCode::KeyW, true);
    input.process_key(KeyCode::KeyW, false);
    assert_eq!(input.direction(), [0, 0]);
    input.process_key(KeyCode::KeyW, false);
    input.process_key(KeyCode::KeyW, true);
    assert_eq!(input.direction(), [0, -1]);
}

#[test]
fn action_keys_set_public_flags() {
    let mut input = InputState::default();
    assert!(input.process_key(KeyCode::KeyQ, true));
    assert!(input.plus);
    assert!(input.process_key(KeyCode::KeyE, true));
    assert!(input.minus);
    assert!(input.process_key(KeyCode::Space, true));
    assert!(input.reset);
    assert!(input.process_key(KeyCode::KeyL, true));
    assert!(input.rotation_l);
    assert!(input.process_key(KeyCode::KeyR, true));
    assert!(input.rotation_r);
    assert!(input.process_key(KeyCode::Space, false));
    assert!(!input.reset);
    assert_eq!(input.direction(), [0, 0]);
}

#[test]
fn other_keys_are_not_handled() {
    let mut input = InputState::default();
    input.process_key(KeyCode::ArrowUp, true);
    assert!(!input.process_key(KeyCode::Other, true));
    assert_eq!(input.direction(), [0, -1]);
    assert!(!input.plus && !input.minus && !input.reset);
}

#[test]
fn minimal_state_handles_movement_only() {
    let mut input = MinimalInputState::default();
    assert_eq!(input.direction(), [0, 0]);
    assert!(input.process_key(KeyCode::KeyA, true));
    assert!(input.process_key(KeyCode::ArrowDown, true));
    assert_eq!(input.direction(), [-1, 1]);
    assert!(!input.process_key(KeyCode::KeyQ, true));
    assert!(!input.process_key(KeyCode::Space, true));
    assert!(!input.process_key(KeyCode::KeyL, true));
    assert!(!input.process_key(KeyCode::Other, true));
    assert_eq!(input.direction(), [-1, 1]);
    assert!(input.process_key(KeyCode::KeyA, false));
    assert!(input.process_key(KeyCode::ArrowRight, true));
    assert!(input.process_key(KeyCode::KeyW, true));
    assert_eq!(input.direction(), [1, 0]);
}

#[test]
fn events_for_different_keys_commute() {
    let mut a = InputState::default();
    let mut b = InputState::default();
    a.process_key(KeyCode::KeyQ, true);
    a.process_key(KeyCode::ArrowLeft, true);
    b.process_key(KeyCode::KeyA, true);
    b.process_key(KeyCode::KeyQ, true);
    assert_eq!(a.direction(), b.direction());
    assert_eq!(a.plus, b.plus);
    assert_eq!(a.direction(), [-1, 0]);
}

#[test]
fn escape_press_asks_to_exit() {
    let mut input = InputState::default();
    input.process_key(KeyCode::KeyW, true);
    assert!(input.handle_key(KeyCode::Escape, true));
    assert_eq!(input.direction(), [0, -1]);
    assert!(!input.handle_key(KeyCode::Escape, false));
    assert!(!input.handle_key(KeyCode::KeyW, false));
    assert_eq!(input.direction(), [0, 0]);
    assert!(!input.handle_key(KeyCode::ArrowRight, true));
    assert_eq!(input.direction(), [1, 0]);
    assert!(!input.process_key(KeyCode::Escape, true));
}
