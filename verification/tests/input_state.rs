use engine::input::{
    is_registered_input, is_registered_mouse_input, InputHandler, KeyCode, MouseInput,
};
use engine::window::WindowProperties;

#[test]
fn every_key_but_na_is_registered() {
    for key in [
        KeyCode::W,
        KeyCode::A,
        KeyCode::S,
        KeyCode::D,
        KeyCode::Up,
        KeyCode::Down,
        KeyCode::Left,
        KeyCode::Right,
        KeyCode::Space,
    ] {
        assert!(is_registered_input(&key));
    }
    assert!(!is_registered_input(&KeyCode::NA));
}

#[test]
fn every_button_but_na_is_registered() {
    assert!(is_registered_mouse_input(&MouseInput::LeftMouse));
    assert!(is_registered_mouse_input(&MouseInput::RightMouse));
    assert!(is_registered_mouse_input(&MouseInput::MiddleMouse));
    assert!(!is_registered_mouse_input(&MouseInput::NA));
}

#[test]
fn new_handler_has_nothing_pressed_or_held() {
    let handler = InputHandler::new();
    assert!(!handler.get_keycode_down(&KeyCode::W));
    assert!(!handler.get_keycode(&KeyCode::W));
    assert!(!handler.get_mouse_down(&MouseInput::LeftMouse));
    assert!(!handler.get_mouse_button(&MouseInput::LeftMouse));
}

#[test]
fn key_counts_as_pressed_only_in_its_first_frame() {
    let mut handler = InputHandler::new();
    handler.update_input_state(&vec![KeyCode::Space], &vec![]);
    assert!(handler.get_keycode_down(&KeyCode::Space));
    assert!(handler.get_keycode(&KeyCode::Space));
    assert!(!handler.get_keycode(&KeyCode::W));
    handler.update_input_state(&vec![KeyCode::Space], &vec![]);
    assert!(handler.get_keycode_down(&KeyCode::Space));
    assert!(!handler.get_keycode(&KeyCode::Space));
}

#[test]
fn released_key_is_no_longer_down_but_keeps_its_count_until_cleared() {
    let mut handler = InputHandler::new();
    handler.update_input_state(&vec![KeyCode::A], &vec![]);
    handler.update_input_state(&vec![], &vec![]);
    assert!(!handler.get_keycode_down(&KeyCode::A));
    assert!(handler.get_keycode(&KeyCode::A));
    handler.clear_keyboard_input(&KeyCode::A);
    assert!(!handler.get_keycode(&KeyCode::A));
    handler.update_input_state(&vec![KeyCode::A], &vec![]);
    assert!(handler.get_keycode(&KeyCode::A));
}

#[test]
fn unregistered_input_is_dropped() {
    let mut handler = InputHandler::new();
    handler.update_input_state(
        &vec![KeyCode::NA, KeyCode::W, KeyCode::NA],
        &vec![MouseInput::NA, MouseInput::RightMouse],
    );
    assert!(!handler.get_keycode_down(&KeyCode::NA));
    assert!(!handler.get_keycode(&KeyCode::NA));
    assert!(handler.get_keycode_down(&KeyCode::W));
    assert!(!handler.get_mouse_down(&MouseInput::NA));
    assert!(!handler.get_mouse_button(&MouseInput::NA));
    assert!(handler.get_mouse_down(&MouseInput::RightMouse));
    assert!(handler.get_mouse_button(&MouseInput::RightMouse));
}

#[test]
fn a_key_reported_twice_in_one_frame_counts_twice() {
    let mut handler = InputHandler::new();
    handler.update_input_state(&vec![KeyCode::Up, KeyCode::Up], &vec![]);
    assert!(handler.get_keycode_down(&KeyCode::Up));
    assert!(!handler.get_keycode(&KeyCode::Up));
}

#[test]
fn mouse_button_counts_as_pressed_only_in_its_first_frame() {
    let mut handler = InputHandler::new();
    handler.update_input_state(&vec![], &vec![MouseInput::LeftMouse]);
    assert!(handler.get_mouse_down(&MouseInput::LeftMouse));
    assert!(handler.get_mouse_button(&MouseInput::LeftMouse));
    assert!(!handler.get_mouse_button(&MouseInput::MiddleMouse));
    handler.update_input_state(&vec![], &vec![MouseInput::LeftMouse, MouseInput::MiddleMouse]);
    assert!(!handler.get_mouse_button(&MouseInput::LeftMouse));
    assert!(handler.get_mouse_button(&MouseInput::MiddleMouse));
    handler.clear_mouse_input(&MouseInput::LeftMouse);
    handler.update_input_state(&vec![], &vec![MouseInput::LeftMouse]);
    assert!(handler.get_mouse_button(&MouseInput::LeftMouse));
    assert!(!handler.get_mouse_down(&MouseInput::MiddleMouse));
}

#[test]
fn clearing_one_key_leaves_the_others() {
    let mut handler = InputHandler::new();
    handler.update_input_state(&vec![KeyCode::W, KeyCode::D], &vec![MouseInput::LeftMouse]);
    handler.clear_keyboard_input(&KeyCode::W);
    assert!(!handler.get_keycode(&KeyCode::W));
    assert!(handler.get_keycode(&KeyCode::D));
    assert!(handler.get_mouse_button(&MouseInput::LeftMouse));
    assert!(handler.get_keycode_down(&KeyCode::W));
}

#[test]
fn window_properties_keep_what_they_are_given() {
    let window = WindowProperties::new("Scrapyard Engine", 1280, 720);
    assert_eq!(window.title, "Scrapyard Engine");
    assert_eq!(window.width, 1280);
    assert_eq!(window.height, 720);
}
