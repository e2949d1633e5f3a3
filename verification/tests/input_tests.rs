use compute_path_tracer::packages::input_manager_package::{ElementState, InputEvent, InputManager};

fn key(code: u32, state: ElementState) -> InputEvent {
    InputEvent::KeyboardInput { key: Some(code), state }
}

#[test]
fn key_press_is_held_and_just_pressed() {
    let mut im = InputManager::new();
    assert!(!im.is_key_pressed(5));
    im.process_event(&key(5, ElementState::Pressed));
    assert!(im.is_key_pressed(5));
    assert!(im.is_key_just_pressed(5));
    assert!(!im.is_key_pressed(6));
}

#[test]
fn key_release_keeps_just_pressed_until_reset() {
    let mut im = InputManager::new();
    im.process_event(&key(7, ElementState::Pressed));
    im.process_event(&key(7, ElementState::Released));
    assert!(!im.is_key_pressed(7));
    assert!(im.is_key_just_pressed(7));
    im.reset();
    assert!(!im.is_key_just_pressed(7));
}

#[test]
fn reset_keeps_held_keys() {
    let mut im = InputManager::new();
    im.process_event(&key(1, ElementState::Pressed));
    im.reset();
    assert!(im.is_key_pressed(1));
    assert!(!im.is_key_just_pressed(1));
}

#[test]
fn unknown_key_changes_nothing() {
    let mut im = InputManager::new();
    im.process_event(&InputEvent::KeyboardInput { key: None, state: ElementState::Pressed });
    assert!(!im.is_key_pressed(0));
    assert!(!im.is_key_just_pressed(0));
}

#[test]
fn mouse_release_clears_only_just_pressed() {
    let mut im = InputManager::new();
    im.process_event(&InputEvent::MouseInput { button: 0, state: ElementState::Pressed });
    assert!(im.is_mouse_key_pressed(0));
    assert!(im.is_mouse_key_just_pressed(0));
    im.process_event(&InputEvent::MouseInput { button: 0, state: ElementState::Released });
    assert!(im.is_mouse_key_pressed(0));
    assert!(!im.is_mouse_key_just_pressed(0));
}

#[test]
fn reset_keeps_mouse_state() {
    let mut im = InputManager::new();
    im.process_event(&InputEvent::MouseInput { button: 2, state: ElementState::Pressed });
    im.reset();
    assert!(im.is_mouse_key_just_pressed(2));
}

#[test]
fn cursor_moves() {
    let mut im = InputManager::new();
    assert_eq!(im.mouse_screen_pos, (0, 0));
    let x = 12.5f32.to_bits();
    let y = 3.0f32.to_bits();
    im.process_event(&InputEvent::CursorMoved { x, y });
    assert_eq!(im.mouse_screen_pos, (x, y));
    im.process_event(&InputEvent::Other);
    assert_eq!(im.mouse_screen_pos, (x, y));
}
