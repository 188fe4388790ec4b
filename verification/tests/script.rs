use rev_idle::capture::CaptureState;
use rev_idle::history::{history_from_paths, record, same_path_text};
use rev_idle::lifecycle::{
    apply_hotkey_update, capture_action, disable_capture_if_running, CaptureAction, Effect, Lifecycle,
};
use rev_idle::status::{ScriptPhase, StateUpdate};
use rev_idle::ScriptCommand;
use rev_idle::pause::ActionGate;

#[test]
fn script_stale_hotkey_delivery_cannot_reopen_or_resume_a_newer_pause() {
    let mut gate = ActionGate::default();
    let stale_resume = gate.set_paused(false);
    let current_pause = gate.set_paused(true);
    let mut lifecycle_paused = true;

    assert!(!apply_hotkey_update(stale_resume, &mut gate, true, &mut lifecycle_paused));
    assert!(gate.is_paused());
    assert!(lifecycle_paused);

    assert!(apply_hotkey_update(current_pause, &mut gate, true, &mut lifecycle_paused));
    assert!(gate.is_paused());
    assert!(lifecycle_paused);
}

#[test]
fn tests_stale_hotkey_delivery_cannot_reopen_or_resume_a_newer_pause() {
    let mut gate = ActionGate::new();
    let stale_resume = gate.set_paused(false);
    let current_pause = gate.set_paused(true);
    let mut lifecycle_paused = true;

    assert!(!apply_hotkey_update(stale_resume, &mut gate, true, &mut lifecycle_paused));
    assert!(gate.is_paused());
    assert!(lifecycle_paused);

    assert!(apply_hotkey_update(current_pause, &mut gate, true, &mut lifecycle_paused));
    assert!(gate.is_paused());
    assert!(lifecycle_paused);
}

fn check_capture_rules() {
    assert_eq!(capture_action(false, false, false), CaptureAction::Enable);
    assert_eq!(capture_action(false, true, true), CaptureAction::Enable);
    assert_eq!(capture_action(false, true, false), CaptureAction::Reject);
    assert_eq!(capture_action(true, true, false), CaptureAction::Disable);

    let mut capture_state = CaptureState::default();
    capture_state.set_enabled(true);
    disable_capture_if_running(&mut capture_state.enabled, true, false);
    assert!(!capture_state.is_enabled());
}

#[test]
fn script_capture_is_allowed_only_when_the_script_is_paused_or_stopped() {
    check_capture_rules();
}

#[test]
fn tests_capture_is_allowed_only_when_the_script_is_paused_or_stopped() {
    check_capture_rules();
}

#[test]
fn history_keeps_only_the_latest_ten_scripts() {
    let mut history = Vec::new();
    for index in 0..12 {
        record(&mut history, format!("script-{index}.js"));
    }
    assert_eq!(history.len(), 10);
    assert_eq!(history.first(), Some(&"script-2.js".to_string()));
    assert_eq!(history.last(), Some(&"script-11.js".to_string()));
}

#[test]
fn recording_a_script_again_moves_it_to_the_end() {
    let mut history = vec!["a.js".to_string(), "b.js".to_string(), "c.js".to_string()];
    record(&mut history, "a.js".to_string());
    assert_eq!(history, vec!["b.js".to_string(), "c.js".to_string(), "a.js".to_string()]);
}

#[test]
fn a_stale_pause_without_a_script_leaves_the_gate_alone() {
    let mut gate = ActionGate::new();
    let stale = gate.set_paused(true);
    let _current = gate.set_paused(true);
    let mut paused = false;
    assert!(!apply_hotkey_update(stale, &mut gate, false, &mut paused));
    assert!(gate.is_paused());
    let current = gate.current_update();
    assert!(apply_hotkey_update(current, &mut gate, false, &mut paused));
    assert!(!gate.is_paused());
    assert!(!paused);
}

#[test]
fn run_history_rebuilds_from_stored_paths_in_run_order() {
    let first = "first.js".to_string();
    let second = "second.js".to_string();
    let mut history = Vec::new();
    record(&mut history, first.clone());
    record(&mut history, second.clone());
    record(&mut history, first.clone());
    assert_eq!(history, vec![second.clone(), first.clone()]);
    assert_eq!(history_from_paths(history.clone()), vec![second.clone(), first.clone()]);
    assert_eq!(history_from_paths(vec![first.clone()]), vec![first.clone()]);
    assert_eq!(history_from_paths(vec![first.clone(), second.clone(), first.clone()]), vec![second, first]);
    let many: Vec<String> = (0..12).map(|index| format!("script-{index}.js")).collect();
    let rebuilt = history_from_paths(many);
    assert_eq!(rebuilt.len(), 10);
    assert_eq!(rebuilt[0], "script-2.js");
    assert_eq!(rebuilt[9], "script-11.js");
}

#[test]
fn sync_locks_the_console_while_running_and_publishes_only_changes() {
    let running = Lifecycle { current_path: Some("a.js".to_string()), loaded: true, paused: false };
    let stale = StateUpdate::new(false, false, false, false, false);
    let sync = running.sync(true, true, stale);
    assert!(sync.console_locked);
    let sent = sync.publish.unwrap();
    assert_eq!(sent.phase, ScriptPhase::Running);
    assert!(!sent.capture && sent.locked);
    let again = running.sync(true, true, sent);
    assert!(again.publish.is_none());
    let paused = Lifecycle { current_path: Some("a.js".to_string()), loaded: true, paused: true };
    let sync = paused.sync(true, false, sent);
    assert!(!sync.console_locked);
    assert_eq!(sync.publish, Some(StateUpdate::new(true, true, true, true, false)));
}

#[test]
fn stop_and_capture_commands_print_and_never_exit_or_lock() {
    let mut lifecycle = Lifecycle { current_path: Some("a.js".to_string()), loaded: true, paused: true };
    let mut gate = ActionGate::new();
    let mut capture = false;
    let stopped = lifecycle.handle_command(ScriptCommand::Stop, &mut gate, &mut capture);
    assert!(matches!(stopped.effect, Effect::Nothing));
    assert!(!stopped.lock);
    assert_eq!(stopped.report.unwrap().text, "script stopped");
    let started = lifecycle.handle_command(ScriptCommand::Capture, &mut gate, &mut capture);
    assert!(capture && !started.lock && matches!(started.effect, Effect::Nothing));
    let report = started.report.unwrap();
    assert!(!report.error);
    assert_eq!(report.text, "mouse capture started");
    let ended = lifecycle.handle_command(ScriptCommand::Capture, &mut gate, &mut capture);
    assert!(!capture && !ended.lock);
    assert_eq!(ended.report.unwrap().text, "mouse capture stopped");
    let exit = lifecycle.handle_command(ScriptCommand::Exit, &mut gate, &mut capture);
    assert!(matches!(exit.effect, Effect::Exit) && !exit.lock && exit.report.is_none());
}

fn same(a: &str, b: &str) -> bool {
    let a: Vec<char> = a.chars().collect();
    let b: Vec<char> = b.chars().collect();
    same_path_text(&a, &b)
}

#[test]
fn paths_compare_by_component_as_windows_paths_do() {
    assert!(same("a//b", "a/b"));
    assert!(same("a/b/", "a/b"));
    assert!(same("a\\b", "a/b"));
    assert!(same("a/./b", "a/b"));
    assert!(same("C:/x/y.js", "c:\\x\\y.js"));
    assert!(same("./a", "./a"));
    assert!(!same("./a", "a"));
    assert!(!same("/a", "a"));
    assert!(!same("C:x", "C:/x"));
    assert!(!same("a/B", "a/b"));
}

#[test]
fn recording_a_path_replaces_any_spelling_of_it() {
    let mut history = vec!["scripts/a.js".to_string(), "b.js".to_string()];
    record(&mut history, "scripts//a.js".to_string());
    assert_eq!(history, vec!["b.js".to_string(), "scripts//a.js".to_string()]);
    record(&mut history, "scripts\\a.js".to_string());
    assert_eq!(history, vec!["b.js".to_string(), "scripts\\a.js".to_string()]);
}

#[test]
fn pausing_and_stopping_always_move_the_gate_on() {
    let mut lifecycle = Lifecycle { current_path: Some("a.js".to_string()), loaded: true, paused: false };
    let mut gate = ActionGate::new();
    let before = gate.current_update();
    let report = lifecycle.complete_pause(&mut gate);
    assert_eq!(report.text, "script paused");
    assert!(gate.is_paused() && !gate.is_current(before));
    let paused = gate.current_update();
    lifecycle.stop_after_invocation(&mut gate);
    assert!(!gate.is_paused() && !gate.is_current(paused));
    let unpaused = gate.current_update();
    lifecycle.stop_after_invocation(&mut gate);
    assert!(!gate.is_current(unpaused));
}

#[test]
fn without_a_script_a_current_pause_is_reset_to_a_new_word() {
    let mut gate = ActionGate::new();
    let pause = gate.set_paused(true);
    let mut paused = false;
    assert!(apply_hotkey_update(pause, &mut gate, false, &mut paused));
    assert!(!gate.is_paused() && !gate.is_current(pause) && !paused);
}
