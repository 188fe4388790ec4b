use rev_idle::bridge::control::{notification_command, notification_types};
use rev_idle::capture::{capture_message_params, capture_message_point, describe_capture, needs_location, Point, UiLookup, WM_LBUTTONDOWN};
use rev_idle::loader::{
    check_relative_import, import_path, is_typescript_path, join_normalized, source_path, stack_position, versioned_name, RELATIVE_IMPORTS_ONLY,
};
use rev_idle::session::{console_line, describe_exception};
use rev_idle::ScriptCommand;

#[test]
fn notifications_map_to_lifecycle_commands() {
    assert_eq!(notification_command("ReloadScript"), Some(ScriptCommand::Reload));
    assert_eq!(notification_command("StopScript"), Some(ScriptCommand::Stop));
    assert_eq!(notification_command("PauseScript"), Some(ScriptCommand::Pause));
    assert_eq!(notification_command("ResumeScript"), Some(ScriptCommand::Resume));
    assert_eq!(notification_command("StartCapture"), Some(ScriptCommand::StartCapture));
    assert_eq!(notification_command("StopCapture"), Some(ScriptCommand::StopCapture));
    assert_eq!(notification_command("LockScript"), None);
    assert_eq!(notification_types().len(), 6);
}

#[test]
fn captured_clicks_are_described_with_their_target() {
    let found = UiLookup::Found { target_type: Some("button".to_string()), path: Some("Canvas/Go".to_string()) };
    assert_eq!(
        describe_capture(12, -3, &found, Ok(())),
        vec!["click: 12, -3; button: \"Canvas/Go\"".to_string(), "Copied to clipboard".to_string()]
    );
    assert_eq!(
        describe_capture(12, -3, &found, Err("busy".to_string())),
        vec!["click: 12, -3; button: \"Canvas/Go\"; clipboard write failed: busy".to_string()]
    );
    let other = UiLookup::Found { target_type: Some("text".to_string()), path: Some("Canvas/Label".to_string()) };
    assert_eq!(describe_capture(1, 2, &other, Ok(())), vec!["click: 1, 2".to_string()]);
    assert_eq!(
        describe_capture(1, 2, &UiLookup::Failed("Timeout".to_string()), Ok(())),
        vec!["click: 1, 2; lookup failed: Timeout".to_string()]
    );
}

#[test]
fn capture_messages_carry_the_click_unchanged() {
    let point = Point { x: -1200, y: -45 };
    let (wparam, lparam) = capture_message_params(point);
    assert_eq!(capture_message_point(wparam, lparam), point);
    assert!(needs_location(WM_LBUTTONDOWN as u64, false, true));
    assert!(!needs_location(WM_LBUTTONDOWN as u64, false, false));
    assert!(!needs_location(0x0200, true, true));
}

#[test]
fn module_names_keep_their_path_before_the_version() {
    let name = versioned_name("C:\\scripts\\lib.js", 0xabc);
    assert_eq!(name, "C:\\scripts\\lib.js?rev-source=0000000000000abc");
    assert_eq!(source_path(&name), "C:\\scripts\\lib.js");
    assert_eq!(source_path("plain.js"), "plain.js");
    assert_eq!(check_relative_import("./a.js"), Ok(()));
    assert_eq!(check_relative_import("../a.js"), Ok(()));
    assert_eq!(check_relative_import("a.js"), Err(RELATIVE_IMPORTS_ONLY.to_string()));
}

#[test]
fn exceptions_and_console_arguments_are_formatted_like_the_console() {
    assert_eq!(
        describe_exception(Some("TypeError".to_string()), Some("bad".to_string()), Some("    at f (a.js:1:2)".to_string())),
        "TypeError: bad\n    at f (a.js:1:2)"
    );
    assert_eq!(describe_exception(None, Some(String::new()), None), "Error");
    assert_eq!(console_line(&vec!["a".to_string(), "{\"b\":1}".to_string(), "2".to_string()]), "a {\"b\":1} 2");
    assert_eq!(console_line(&Vec::new()), "");
}

#[test]
fn stack_positions_map_utf8_byte_columns_to_utf16_columns() {
    let source = "a\nhé€x😀y\n";
    assert_eq!(stack_position(source, 2, 1), Some((1, 0)));
    assert_eq!(stack_position(source, 2, 2), Some((1, 1)));
    assert_eq!(stack_position(source, 2, 3), None);
    assert_eq!(stack_position(source, 2, 4), Some((1, 2)));
    assert_eq!(stack_position(source, 2, 7), Some((1, 3)));
    assert_eq!(stack_position(source, 2, 12), Some((1, 6)));
    assert_eq!(stack_position(source, 2, 13), Some((1, 7)));
    assert_eq!(stack_position(source, 2, 14), None);
    assert_eq!(stack_position(source, 0, 1), None);
    assert_eq!(stack_position(source, 3, 1), None);
    assert_eq!(stack_position(source, 1, 0), None);
}

#[test]
fn typescript_modules_are_told_by_their_extension() {
    assert!(is_typescript_path("scripts/main.ts"));
    assert!(is_typescript_path("C:\\scripts\\Main.TS"));
    assert!(is_typescript_path("lib.d.ts"));
    assert!(is_typescript_path("dir/a.ts/"));
    assert!(!is_typescript_path("scripts/main.js"));
    assert!(!is_typescript_path(".ts"));
    assert!(!is_typescript_path("dir/.ts"));
    assert!(!is_typescript_path("a.ts/.."));
    assert!(!is_typescript_path("ts"));
    assert!(!is_typescript_path(""));
}

#[test]
fn imports_resolve_against_the_importing_module_directory() {
    assert_eq!(import_path("scripts/main.js", "./lib/util"), "scripts\\lib\\util.js");
    assert_eq!(import_path("scripts/main.js", "./lib/util.js"), "scripts\\lib\\util.js");
    assert_eq!(import_path("scripts/sub/main.js", "../shared/a.ts"), "scripts\\shared\\a.ts");
    assert_eq!(import_path("C:\\scripts\\main.js", "./a"), "C:\\scripts\\a.js");
    assert_eq!(import_path("main.js", "./a"), "a.js");
    assert_eq!(import_path("C:\\main.js", "./x/./y"), "C:\\x\\y.js");
    assert_eq!(import_path("/main.js", "../a"), "/a.js");
    assert_eq!(import_path("a.js", "./.config"), ".config.js");
}

#[test]
fn joining_drops_dots_and_goes_up_on_dot_dots() {
    assert_eq!(join_normalized("a/b", "./c"), "a/b\\c");
    assert_eq!(join_normalized("a/b", "../c"), "a\\c");
    assert_eq!(join_normalized("a/b/", "./c//d"), "a/b/c\\d");
    assert_eq!(join_normalized("a", "../../c"), "c");
    assert_eq!(join_normalized("C:", "./c"), "C:c");
    assert_eq!(join_normalized("", "."), "");
}
