use astronomore::input::{camera_direction, key_action, HeldKeys, Key, KeyAction, MoveDirection};
use astronomore::view::ViewOptions;

#[test]
fn default_view() {
    let v = ViewOptions::new();
    assert!(v.show_grid_xz && !v.show_grid_xy && !v.show_grid_yz);
    assert!(!v.wireframe && !v.show_normals && !v.show_arrows);
    assert_eq!((v.sphere_meridians, v.sphere_parallels), (128, 64));
    assert_eq!((v.date_input_year, v.date_input_month, v.date_input_day), (2000, 1, 1));
    assert_eq!(ViewOptions::default(), v);
}

#[test]
fn grid_key_hides_all_then_shows_all() {
    let mut v = ViewOptions::new();
    assert!(v.any_grid_visible());
    v.toggle_all_grids();
    assert!(!v.show_grid_xz && !v.show_grid_xy && !v.show_grid_yz);
    assert!(!v.any_grid_visible());
    v.toggle_all_grids();
    assert!(v.show_grid_xz && v.show_grid_xy && v.show_grid_yz);
}

#[test]
fn toggles_flip_one_flag() {
    let mut v = ViewOptions::new();
    v.toggle_wireframe();
    assert!(v.wireframe);
    v.toggle_normals();
    v.toggle_body_names();
    v.toggle_arrows();
    v.toggle_offscreen_indicators();
    assert!(v.show_normals && v.show_body_names && v.show_arrows && !v.show_offscreen_indicators);
    v.toggle_wireframe();
    assert!(!v.wireframe);
    assert!(v.show_grid_xz);
}

#[test]
fn movement_key_bindings() {
    assert_eq!(camera_direction(Key::KeyW), Some(MoveDirection::Forward));
    assert_eq!(camera_direction(Key::ArrowUp), Some(MoveDirection::Forward));
    assert_eq!(camera_direction(Key::KeyS), Some(MoveDirection::Backward));
    assert_eq!(camera_direction(Key::ShiftLeft), Some(MoveDirection::Down));
    assert_eq!(camera_direction(Key::ShiftRight), Some(MoveDirection::Down));
    assert_eq!(camera_direction(Key::NumpadSubtract), Some(MoveDirection::ZoomOut));
    assert_eq!(camera_direction(Key::KeyP), None);
}

#[test]
fn press_and_release() {
    let mut held = HeldKeys::new();
    assert!(held.handle_key(Key::Space, true));
    assert!(held.is_held(MoveDirection::Up));
    assert!(held.handle_key(Key::Space, false));
    assert!(!held.is_held(MoveDirection::Up));
    assert_eq!(held, HeldKeys::new());
    assert!(!held.handle_key(Key::Escape, true));
    assert_eq!(held, HeldKeys::new());
}

#[test]
fn shortcuts_on_press_only() {
    assert_eq!(key_action(Key::Escape, true), KeyAction::Exit);
    assert_eq!(key_action(Key::Tab, true), KeyAction::ToggleWireframe);
    assert_eq!(key_action(Key::PageUp, true), KeyAction::DoubleSpeed);
    assert_eq!(key_action(Key::Digit0, true), KeyAction::ResetSpeed);
    assert_eq!(key_action(Key::KeyG, true), KeyAction::ToggleAllGrids);
    assert_eq!(key_action(Key::BracketRight, true), KeyAction::IncreaseUiScale);
    assert_eq!(key_action(Key::Escape, false), KeyAction::Camera);
    assert_eq!(key_action(Key::KeyW, true), KeyAction::Camera);
}
