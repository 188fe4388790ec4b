use rev_idle::hotkey::{finish_hotkey_loop, hotkey_event, hotkey_step, shutdown_plan, HotkeyEvent, HotkeyStep, ShutdownPlan, WM_HOTKEY};
use rev_idle::pause::{ActionGate, PauseUpdate};

struct FakePlatform {
    events: Vec<HotkeyEvent>,
    fail_register: bool,
    unregister_count: usize,
}

impl FakePlatform {
    fn events(events: Vec<HotkeyEvent>) -> Self {
        FakePlatform { events, fail_register: false, unregister_count: 0 }
    }
}

/// Runs the hotkey loop the way the worker thread does, publishing each
/// update to `published` (when there is a reader).
fn run_hotkey_loop(
    platform: &mut FakePlatform,
    gate: &mut ActionGate,
    published: &mut Option<PauseUpdate>,
    reader_open: bool,
) -> Result<(), String> {
    if platform.fail_register {
        return Err("registration failed".to_string());
    }
    let result = loop {
        let event = platform.events.pop().ok_or_else(|| "event source exhausted".to_string());
        match hotkey_step(gate, event) {
            HotkeyStep::Publish(update) => {
                if reader_open {
                    *published = Some(update);
                }
            }
            HotkeyStep::Continue => {}
            HotkeyStep::Stop(result) => break result,
        }
    };
    platform.unregister_count += 1;
    finish_hotkey_loop(result, Ok(()))
}

#[test]
fn f8_closes_the_gate_before_delivering_paused_state() {
    let mut gate = ActionGate::new();
    let mut published = None;
    let mut platform = FakePlatform::events(vec![HotkeyEvent::Quit, HotkeyEvent::Pressed]);
    run_hotkey_loop(&mut platform, &mut gate, &mut published, true).unwrap();
    assert!(gate.is_paused());
    assert!(published.unwrap().paused());
}

#[test]
fn unread_f8_events_coalesce_without_blocking_the_message_loop() {
    let mut gate = ActionGate::new();
    let mut published = None;
    let mut events = vec![HotkeyEvent::Quit];
    events.extend(std::iter::repeat_n(HotkeyEvent::Pressed, 10_001));
    let mut platform = FakePlatform::events(events);
    run_hotkey_loop(&mut platform, &mut gate, &mut published, true).unwrap();
    assert!(gate.is_paused());
    assert!(published.unwrap().paused());
}

#[test]
fn closed_pause_receiver_does_not_stop_hotkey_cleanup() {
    let mut gate = ActionGate::new();
    let mut published = None;
    let mut platform = FakePlatform::events(vec![HotkeyEvent::Quit, HotkeyEvent::Pressed]);
    assert_eq!(run_hotkey_loop(&mut platform, &mut gate, &mut published, false), Ok(()));
    assert!(gate.is_paused());
    assert_eq!(platform.unregister_count, 1);
}

#[test]
fn registration_failure_returns_error() {
    let mut platform = FakePlatform::events(Vec::new());
    platform.fail_register = true;
    let mut published = None;
    assert_eq!(
        run_hotkey_loop(&mut platform, &mut ActionGate::new(), &mut published, true),
        Err("registration failed".to_string())
    );
}

#[test]
fn successful_loop_unregisters_once() {
    let mut platform = FakePlatform::events(vec![HotkeyEvent::Quit, HotkeyEvent::Continue]);
    let mut published = None;
    let result = run_hotkey_loop(&mut platform, &mut ActionGate::new(), &mut published, true);
    assert_eq!(result, Ok(()));
    assert_eq!(platform.unregister_count, 1);
}

#[test]
fn unregister_failures_are_reported_after_the_loop_error() {
    assert_eq!(
        finish_hotkey_loop(Ok(()), Err("denied".to_string())),
        Err("failed to unregister hotkey: denied".to_string())
    );
    assert_eq!(
        finish_hotkey_loop(Err("GetMessageW failed".to_string()), Err("denied".to_string())),
        Err("GetMessageW failed; failed to unregister hotkey: denied".to_string())
    );
    assert_eq!(finish_hotkey_loop(Err("x".to_string()), Ok(())), Err("x".to_string()));
}

#[test]
fn messages_are_read_as_presses_quits_or_failures() {
    assert_eq!(hotkey_event(1, WM_HOTKEY, 1), Ok(HotkeyEvent::Pressed));
    assert_eq!(hotkey_event(1, WM_HOTKEY, 2), Ok(HotkeyEvent::Continue));
    assert_eq!(hotkey_event(1, 0x0100, 1), Ok(HotkeyEvent::Continue));
    assert_eq!(hotkey_event(0, WM_HOTKEY, 1), Ok(HotkeyEvent::Quit));
    assert_eq!(hotkey_event(-1, WM_HOTKEY, 1), Err("GetMessageW failed".to_string()));
}

#[test]
fn failed_quit_post_hands_a_running_worker_to_cleanup() {
    assert!(matches!(shutdown_plan(Ok(()), false), ShutdownPlan::Join));
    assert!(matches!(shutdown_plan(Err("initial post failed".to_string()), true), ShutdownPlan::ReapAndFail(e) if e == "initial post failed"));
    assert!(matches!(shutdown_plan(Err("initial post failed".to_string()), false), ShutdownPlan::DeferAndFail(e) if e == "initial post failed"));
}

#[test]
fn two_presses_resume_with_a_newer_generation() {
    let mut gate = ActionGate::new();
    let first = match hotkey_step(&mut gate, Ok(HotkeyEvent::Pressed)) {
        HotkeyStep::Publish(update) => update,
        other => panic!("{other:?}"),
    };
    let second = match hotkey_step(&mut gate, Ok(HotkeyEvent::Pressed)) {
        HotkeyStep::Publish(update) => update,
        other => panic!("{other:?}"),
    };
    assert!(first.paused());
    assert!(!second.paused());
    assert!(!gate.is_current(first));
    assert!(gate.is_current(second));
}
