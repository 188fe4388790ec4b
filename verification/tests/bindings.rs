use rev_idle::bindings::{
    action_allowed, axis_from_name, button_from_name, check_button_path, check_slot_paths, click_at_with,
    key_for_press, Button,
};
use rev_idle::pause::ActionGate;
use rev_idle::window::Axis;

#[test]
fn production_mouse_adapter_sends_one_bridge_event() {
    let mut received = None;
    click_at_with(1200, 80, |x, y| {
        received = Some((x, y));
        Ok(())
    })
    .unwrap();
    assert_eq!(received, Some((1200, 80)));
}

#[test]
fn buttons_default_to_left_and_unknown_names_are_refused() {
    assert_eq!(button_from_name(None), Ok(Button::Left));
    assert_eq!(button_from_name(Some("right")), Ok(Button::Right));
    assert_eq!(button_from_name(Some("middle")), Ok(Button::Middle));
    assert_eq!(button_from_name(Some("Left")), Err("unsupported button: Left".to_string()));
}

#[test]
fn scroll_axes_accept_short_names() {
    assert_eq!(axis_from_name(None), Ok(Axis::Vertical));
    assert_eq!(axis_from_name(Some("h")), Ok(Axis::Horizontal));
    assert_eq!(axis_from_name(Some("vertical")), Ok(Axis::Vertical));
    assert_eq!(axis_from_name(Some("x")), Err("unsupported scroll axis: x".to_string()));
}

#[test]
fn pressed_keys_are_lower_cased_and_checked() {
    assert_eq!(key_for_press("A"), Ok("a".to_string()));
    assert_eq!(key_for_press("F12"), Ok("f12".to_string()));
    assert_eq!(key_for_press("Enter"), Ok("enter".to_string()));
    assert_eq!(key_for_press("7"), Ok("7".to_string()));
    assert_eq!(key_for_press("Ctrl"), Err("unsupported key: ctrl".to_string()));
    assert_eq!(key_for_press("é"), Err("unsupported key: é".to_string()));
    assert_eq!(key_for_press(""), Err("unsupported key: ".to_string()));
}

#[test]
fn blank_paths_are_refused() {
    assert_eq!(check_button_path("  "), Err("button name must not be empty".to_string()));
    assert_eq!(check_button_path("Canvas/Button"), Ok(()));
    assert_eq!(check_slot_paths("a", " "), Err("slot paths must not be empty".to_string()));
    assert_eq!(check_slot_paths("a", "b"), Ok(()));
}

#[test]
fn paused_actions_are_skipped() {
    let mut gate = ActionGate::new();
    assert!(action_allowed(&gate));
    gate.set_paused(true);
    assert!(!action_allowed(&gate));
}
