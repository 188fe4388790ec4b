use rev_idle::app::{ctrl_c_action, finish_shutdown, parse_cli, CtrlCAction};

fn args(values: &[&str]) -> Vec<String> {
    values.iter().map(|value| value.to_string()).collect()
}

#[test]
fn cleanup_error_is_returned_when_selected_task_succeeds() {
    let result = finish_shutdown(Ok(()), Err("cleanup failed".to_string()));
    assert_eq!(result.unwrap_err(), "cleanup failed");
}

#[test]
fn selected_task_error_is_preserved_when_cleanup_succeeds() {
    let result = finish_shutdown(Err("task failed".to_string()), Ok(()));
    assert_eq!(result.unwrap_err(), "task failed");
}

#[test]
fn cli_defaults_to_port_19841_and_interactive_console() {
    let options = parse_cli(&args(&["rev-idle"])).unwrap();
    assert_eq!(options.port, 19841);
    assert!(!options.non_interactable);
    assert_eq!(options.initial_path, None);
}

#[test]
fn cli_accepts_port_flag_non_interactable_flag_and_script() {
    let options = parse_cli(&args(&["rev-idle", "script.js", "--port", "1234", "--non-interactable"])).unwrap();
    assert_eq!(options.port, 1234);
    assert!(options.non_interactable);
    assert_eq!(options.initial_path, Some("script.js".to_string()));
}

#[test]
fn cli_rejects_invalid_port_and_unknown_arguments() {
    for (values, expected) in [
        (vec!["rev-idle", "--port"], "missing value for --port"),
        (vec!["rev-idle", "--port", "--non-interactable"], "missing value for --port"),
        (vec!["rev-idle", "--port", "0"], "port must be between 1 and 65535"),
        (vec!["rev-idle", "--port", "65536"], "port must be between 1 and 65535"),
        (vec!["rev-idle", "--port", "abc"], "invalid port 'abc'"),
        (vec!["rev-idle", "--wat"], "unknown argument '--wat'"),
    ] {
        let error = parse_cli(&args(&values)).unwrap_err();
        assert!(error.contains(expected), "{error}");
    }
}

#[test]
fn ctrl_c_with_a_running_script_requests_script_stop() {
    assert_eq!(ctrl_c_action(true, false), CtrlCAction::StopScript);
    assert_eq!(ctrl_c_action(true, true), CtrlCAction::StopScript);
}

#[test]
fn ctrl_c_stops_capture_or_is_ignored_when_idle() {
    assert_eq!(ctrl_c_action(false, true), CtrlCAction::StopCapture);
    assert_eq!(ctrl_c_action(false, false), CtrlCAction::Ignore);
}
