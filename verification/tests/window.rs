use rev_idle::window::clipboard::unicode_clipboard_contents;
use rev_idle::window::discovery::{is_console_window_class, is_game_executable, require_exactly_one};
use rev_idle::window::geometry::{outer_size_for_client, ClientGeometry};

fn check_clipboard() {
    assert_eq!(
        unicode_clipboard_contents("a\nb\rc\r\nd").unwrap(),
        vec![97, 13, 10, 98, 13, 10, 99, 13, 10, 100, 0]
    );
}

fn check_executable() {
    assert!(is_game_executable(r#"C:\Games\Revolution Idle.exe"#));
    assert!(is_game_executable(r#"C:\Games\REVOLUTION IDLE.EXE"#));
    assert!(!is_game_executable(r#"C:\Games\Revolution Idle Launcher.exe"#));
}

fn check_console_class() {
    assert!(is_console_window_class("ConsoleWindowClass"));
    assert!(is_console_window_class("consolewindowclass"));
    assert!(!is_console_window_class("UnityWndClass"));
}

fn check_exactly_one() {
    assert_eq!(require_exactly_one(Vec::<u32>::new()).unwrap_err(), "Revolution Idle window not found");
    assert_eq!(require_exactly_one(vec![17]).unwrap(), 17);
    assert_eq!(require_exactly_one(vec![17, 23]).unwrap_err(), "multiple Revolution Idle windows found");
}

fn check_screen_to_client() {
    let geometry = ClientGeometry { origin_x: -1200, origin_y: 40, width: 1280, height: 720 };
    assert_eq!(geometry.screen_to_client(-1200, 40), Some((0, 0)));
    assert_eq!(geometry.screen_to_client(79, 759), Some((1279, 719)));
    assert_eq!(geometry.screen_to_client(-1201, 40), None);
    assert_eq!(geometry.screen_to_client(80, 759), None);
}

fn check_outer_size() {
    assert_eq!(outer_size_for_client(1296, 759, 1280, 720, 800, 600).unwrap(), (816, 639));
    assert!(outer_size_for_client(i32::MAX, i32::MAX, 1, 1, i32::MAX, i32::MAX).is_err());
}

#[test]
fn window_unicode_clipboard_contents_normalizes_line_endings() {
    check_clipboard();
}

#[test]
fn clipboard_unicode_clipboard_contents_normalizes_line_endings() {
    check_clipboard();
}

#[test]
fn window_matches_only_the_game_executable_name_case_insensitively() {
    check_executable();
}

#[test]
fn discovery_matches_only_the_game_executable_name_case_insensitively() {
    check_executable();
}

#[test]
fn window_identifies_the_windows_console_class_case_insensitively() {
    check_console_class();
}

#[test]
fn discovery_identifies_the_windows_console_class_case_insensitively() {
    check_console_class();
}

#[test]
fn window_requires_exactly_one_matching_window() {
    check_exactly_one();
}

#[test]
fn discovery_requires_exactly_one_matching_window() {
    check_exactly_one();
}

#[test]
fn window_converts_screen_points_to_client_coordinates_only_inside_the_client_area() {
    check_screen_to_client();
}

#[test]
fn geometry_converts_screen_points_to_client_coordinates_only_inside_the_client_area() {
    check_screen_to_client();
}

#[test]
fn window_calculates_outer_size_from_the_current_frame_and_checks_overflow() {
    check_outer_size();
}

#[test]
fn geometry_calculates_outer_size_from_the_current_frame_and_checks_overflow() {
    check_outer_size();
}

#[test]
fn clipboard_text_with_a_nul_is_refused() {
    assert_eq!(
        unicode_clipboard_contents("a\0b").unwrap_err(),
        "clipboard text cannot contain a null character"
    );
}

#[test]
fn clipboard_text_outside_the_basic_plane_uses_surrogate_pairs() {
    assert_eq!(unicode_clipboard_contents("\u{1F600}").unwrap(), vec![0xD83D, 0xDE00, 0]);
}

#[test]
fn executable_names_ignore_forward_slashes_and_drive_prefixes() {
    assert!(is_game_executable("D:/Steam/Revolution Idle.exe"));
    assert!(is_game_executable("Revolution Idle.exe"));
    assert!(!is_game_executable(""));
}

#[test]
fn resizing_overflow_names_the_frame_width_first() {
    assert_eq!(
        outer_size_for_client(i32::MIN, 0, 1, 0, 10, 10).unwrap_err(),
        "arithmetic overflow while calculating window frame width"
    );
}
