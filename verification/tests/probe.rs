use rev_idle::probe::{pack_bridge_coordinates, parse_focus_flag, INPUT_BRIDGE_MESSAGE};
use rev_idle::window::bridge_input::request_id_from;

#[test]
fn packs_full_width_coordinates_for_bridge_message() {
    assert_eq!(pack_bridge_coordinates(0xabcdef01, 0x12345678) as u64, 0x12345678abcdef01);
}

#[test]
fn bridge_message_uses_reserved_wm_app_offset() {
    assert_eq!(INPUT_BRIDGE_MESSAGE, 0x8417);
}

#[test]
fn focus_flag_is_enabled_only_when_present() {
    assert!(!parse_focus_flag(&[]));
    assert!(parse_focus_flag(&["--focus".to_string()]));
}

#[test]
fn generated_request_id_is_never_zero() {
    assert_ne!(request_id_from(0, 0), 0);
    assert_ne!(request_id_from(123, 456), 0);
}
