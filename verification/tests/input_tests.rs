use ballpit::input::{Action, CameraKeys, InputState, Key, TouchPhase, WindowInput};

#[test]
fn camera_keys_follow_movement_keys() {
    let mut keys = CameraKeys::new();
    assert!(keys.handle_key(Key::KeyW, true));
    assert!(keys.is_forward_pressed);
    assert!(keys.handle_key(Key::ArrowLeft, true));
    assert!(keys.is_left_pressed);
    assert!(keys.handle_key(Key::ArrowDown, true));
    assert!(keys.is_backward_pressed);
    assert!(keys.handle_key(Key::KeyD, true));
    assert!(keys.is_right_pressed);
    assert!(keys.handle_key(Key::ArrowUp, false));
    assert!(!keys.is_forward_pressed);
    assert!(!keys.handle_key(Key::Space, true));
    assert!(!keys.handle_key(Key::Other, true));
    assert_eq!(
        keys,
        CameraKeys {
            is_forward_pressed: false,
            is_backward_pressed: true,
            is_left_pressed: true,
            is_right_pressed: true,
        }
    );
}

#[test]
fn press_then_release_restores_keys() {
    let mut keys = CameraKeys::new();
    let before = keys;
    keys.handle_key(Key::KeyS, true);
    assert_ne!(keys, before);
    keys.handle_key(Key::KeyS, false);
    assert_eq!(keys, before);
}

#[test]
fn new_input_holds_nothing() {
    let s = InputState::new();
    assert!(!s.space_down && !s.mouse_down && !s.bibrate);
    assert!(s.touches.is_empty());
    assert_eq!(s.camera_keys, CameraKeys::new());
}

#[test]
fn escape_pressed_exits_released_does_not() {
    let mut s = InputState::new();
    assert_eq!(s.handle_key(Key::Escape, false), Action::Nothing);
    assert_eq!(s.handle_key(Key::Escape, true), Action::Exit);
    assert!(!s.bibrate);
}

#[test]
fn space_holds_vibration() {
    let mut s = InputState::new();
    assert_eq!(s.handle_key(Key::Space, true), Action::Nothing);
    assert!(s.space_down && s.bibrate);
    s.handle_key(Key::Space, false);
    assert!(!s.space_down && !s.bibrate);
}

#[test]
fn mouse_holds_vibration() {
    let mut s = InputState::new();
    s.mouse_input(true);
    assert!(s.mouse_down && s.bibrate);
    s.handle_key(Key::Space, true);
    s.mouse_input(false);
    assert!(s.bibrate, "space still held");
    s.handle_key(Key::Space, false);
    assert!(!s.bibrate);
}

#[test]
fn touches_hold_vibration_until_last_finger_leaves() {
    let mut s = InputState::new();
    s.touch(1, TouchPhase::Started);
    s.touch(2, TouchPhase::Started);
    assert!(s.bibrate);
    s.touch(1, TouchPhase::Moved);
    assert_eq!(s.touches.len(), 2);
    s.touch(1, TouchPhase::Ended);
    assert!(s.bibrate);
    s.touch(2, TouchPhase::Cancelled);
    assert!(!s.bibrate);
    assert!(s.touches.is_empty());
}

#[test]
fn sync_vibe_brings_flag_up_to_date() {
    let mut s = InputState::new();
    s.space_down = true;
    assert!(!s.bibrate);
    s.sync_vibe();
    assert!(s.bibrate);
}

#[test]
fn window_events_map_to_actions() {
    let mut s = InputState::new();
    assert_eq!(s.on_window_event(WindowInput::CloseRequested), Action::Exit);
    assert_eq!(
        s.on_window_event(WindowInput::Resized { width: 640, height: 480 }),
        Action::Resize { width: 640, height: 480 }
    );
    assert_eq!(s.on_window_event(WindowInput::RedrawRequested), Action::Frame);
    assert_eq!(s.on_window_event(WindowInput::Focused(true)), Action::RequestRedraw);
    assert_eq!(s.on_window_event(WindowInput::Focused(false)), Action::Nothing);
    assert_eq!(s.on_window_event(WindowInput::Occluded(false)), Action::RequestRedraw);
    assert_eq!(s.on_window_event(WindowInput::Occluded(true)), Action::Nothing);
    assert_eq!(s.on_window_event(WindowInput::Other), Action::Nothing);
    assert_eq!(
        s.on_window_event(WindowInput::Key { key: Key::Escape, pressed: true }),
        Action::Exit
    );
    assert_eq!(
        s.on_window_event(WindowInput::Key { key: Key::KeyA, pressed: true }),
        Action::Nothing
    );
    assert!(s.camera_keys.is_left_pressed);
    assert_eq!(
        s.on_window_event(WindowInput::Touch { id: 9, phase: TouchPhase::Started }),
        Action::Nothing
    );
    assert!(s.bibrate && s.touches.contains(&9));
    assert_eq!(s.on_window_event(WindowInput::Mouse { pressed: true }), Action::Nothing);
    assert!(s.mouse_down);
    s.on_window_event(WindowInput::Touch { id: 9, phase: TouchPhase::Ended });
    s.on_window_event(WindowInput::Mouse { pressed: false });
    assert!(!s.bibrate);
}
