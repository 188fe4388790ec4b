use rev_idle::capture::{
    capture_event, claim_capture, decide_mouse_action, is_left_button_down, within_overlay_controls,
    MouseAction, MouseHookState, Point, WM_LBUTTONDOWN, WM_LBUTTONUP,
};

const IN_GAME: Option<(i32, i32, i32, i32)> = Some((10, 20, 1920, 1080));

#[test]
fn captured_click_is_consumed_including_release_after_capture_stops() {
    let point = Point { x: 10, y: 20 };
    let mut state = MouseHookState { capture_enabled: true, left_button_down: false };
    let press = decide_mouse_action(&mut state, WM_LBUTTONDOWN as u64, point, IN_GAME, false);
    state.capture_enabled = false;
    let release = decide_mouse_action(&mut state, WM_LBUTTONUP as u64, point, IN_GAME, false);
    assert_eq!(press, MouseAction::ConsumeAndNotify(point));
    assert_eq!(release, MouseAction::Consume);
}

#[test]
fn click_outside_the_game_window_passes_through_and_leaves_capture_armed() {
    let point = Point { x: 10, y: 20 };
    let mut state = MouseHookState { capture_enabled: true, left_button_down: false };
    let action = decide_mouse_action(&mut state, WM_LBUTTONDOWN as u64, point, None, false);
    assert_eq!(action, MouseAction::PassThrough);
    assert!(state.capture_enabled);
}

#[test]
fn locked_click_outside_overlay_controls_is_consumed_and_stays_locked() {
    let point = Point { x: 10, y: 20 };
    let mut state = MouseHookState::default();
    let down = decide_mouse_action(&mut state, WM_LBUTTONDOWN as u64, point, Some((100, 100, 1920, 1080)), true);
    let up = decide_mouse_action(&mut state, WM_LBUTTONUP as u64, point, Some((100, 100, 1920, 1080)), true);
    assert_eq!(down, MouseAction::Consume);
    assert_eq!(up, MouseAction::Consume);
}

#[test]
fn locked_click_inside_overlay_controls_passes_through() {
    let point = Point { x: 1850, y: 1060 };
    let mut state = MouseHookState::default();
    let down = decide_mouse_action(&mut state, WM_LBUTTONDOWN as u64, point, Some((1850, 1060, 1920, 1080)), true);
    assert_eq!(down, MouseAction::PassThrough);
}

#[test]
fn locked_click_outside_the_game_window_entirely_passes_through() {
    let point = Point { x: 10, y: 20 };
    let mut state = MouseHookState::default();
    let action = decide_mouse_action(&mut state, WM_LBUTTONDOWN as u64, point, None, true);
    assert_eq!(action, MouseAction::PassThrough);
}

#[test]
fn overlay_controls_rect_matches_the_bottom_right_corner() {
    assert!(within_overlay_controls(1850, 1060, 1920, 1080));
    assert!(within_overlay_controls(1790, 1030, 1920, 1080));
    assert!(!within_overlay_controls(1789, 1060, 1920, 1080));
    assert!(!within_overlay_controls(1850, 1029, 1920, 1080));
}

#[test]
fn only_left_button_down_is_a_capture_event() {
    assert!(is_left_button_down(WM_LBUTTONDOWN as u64));
    assert!(!is_left_button_down(514));
}

#[test]
fn capture_event_requires_enabled_left_button_down() {
    let point = Point { x: -12, y: 34 };
    assert_eq!(capture_event(true, WM_LBUTTONDOWN as u64, point), Some(point));
    assert_eq!(capture_event(false, WM_LBUTTONDOWN as u64, point), None);
    assert_eq!(capture_event(true, 514, point), None);
}

#[test]
fn capture_claim_disarms_before_coordinate_lookup() {
    let mut enabled = true;
    assert!(claim_capture(&mut enabled, WM_LBUTTONDOWN as u64, true));
    assert!(!enabled);
    assert!(!claim_capture(&mut enabled, WM_LBUTTONDOWN as u64, true));
}

#[test]
fn claim_capture_ignores_clicks_outside_the_game_window_and_stays_armed() {
    let mut enabled = true;
    assert!(!claim_capture(&mut enabled, WM_LBUTTONDOWN as u64, false));
    assert!(enabled);
}

#[test]
fn a_message_code_is_read_from_the_low_bits_only() {
    assert!(is_left_button_down((1u64 << 32) | WM_LBUTTONDOWN as u64));
}
