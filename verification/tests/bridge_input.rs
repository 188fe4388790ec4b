use rev_idle::window::bridge_input::{
    post_bridge_click_with, post_bridge_drag_endpoint_with, post_bridge_scroll_with, DRAG_END_BRIDGE_MESSAGE,
    DRAG_START_BRIDGE_MESSAGE,
};
use rev_idle::window::Axis;

fn click_events() -> Vec<(u32, u64, u64)> {
    let mut received = Vec::new();
    post_bridge_click_with(1200, 80, 17, |message, wparam, lparam| {
        received.push((message, wparam, lparam as u64));
        Ok(())
    })
    .unwrap();
    received
}

fn scroll_events() -> Vec<(u32, u64, u64)> {
    let mut received = Vec::new();
    post_bridge_scroll_with(1200, 80, -1, Axis::Horizontal, 17, |message, wparam, lparam| {
        received.push((message, wparam, lparam as u64));
        Ok(())
    })
    .unwrap();
    received
}

#[test]
fn bridge_input_background_click_posts_one_bridge_event() {
    assert_eq!(click_events(), vec![(0x8417, 17, 0x00000050000004b0)]);
}

#[test]
fn window_background_click_posts_one_bridge_event() {
    assert_eq!(click_events(), vec![(0x8417, 17, 0x00000050000004b0)]);
}

#[test]
fn bridge_input_background_scroll_packs_coordinates_length_axis_and_request_id() {
    assert_eq!(scroll_events(), vec![(0x8418, 0x00000023ffffffff, 0x00000050000004b0)]);
}

#[test]
fn window_background_scroll_packs_coordinates_length_axis_and_request_id() {
    assert_eq!(scroll_events(), vec![(0x8418, 0x00000023ffffffff, 0x00000050000004b0)]);
}

#[test]
fn background_drag_posts_start_and_end_bridge_events_with_shared_request_id() {
    let mut received = Vec::new();
    post_bridge_drag_endpoint_with(DRAG_START_BRIDGE_MESSAGE, 1200, 80, 17, |message, wparam, lparam| {
        received.push((message, wparam, lparam as u64));
        Ok(())
    })
    .unwrap();
    post_bridge_drag_endpoint_with(DRAG_END_BRIDGE_MESSAGE, 600, 400, 17, |message, wparam, lparam| {
        received.push((message, wparam, lparam as u64));
        Ok(())
    })
    .unwrap();
    assert_eq!(received, vec![(0x8419, 17, 0x00000050000004b0), (0x841a, 17, 0x0000019000000258)]);
}

#[test]
fn failed_bridge_posts_name_the_message() {
    let result = post_bridge_click_with(1, 2, 3, |_, _, _| Err("access denied".to_string()));
    assert_eq!(result, Err("PostMessageW(INPUT_BRIDGE_MESSAGE) failed: access denied".to_string()));
    let result = post_bridge_scroll_with(1, 2, 3, Axis::Vertical, 4, |_, _, _| Err("gone".to_string()));
    assert_eq!(result, Err("PostMessageW(SCROLL_BRIDGE_MESSAGE) failed: gone".to_string()));
    let result = post_bridge_drag_endpoint_with(DRAG_END_BRIDGE_MESSAGE, 1, 2, 3, |_, _, _| Err("gone".to_string()));
    assert_eq!(result, Err("PostMessageW(0x841a) failed: gone".to_string()));
}
