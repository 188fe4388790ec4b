use rev_idle::status::{ScriptPhase, StateUpdate};

#[test]
fn state_update_projects_lifecycle_and_capture() {
    assert_eq!(StateUpdate::new(false, false, false, false, false).phase, ScriptPhase::Unloaded);
    assert_eq!(StateUpdate::new(true, false, false, false, false).phase, ScriptPhase::Stopped);
    assert_eq!(StateUpdate::new(true, true, false, false, false).phase, ScriptPhase::Running);
    assert_eq!(StateUpdate::new(true, true, true, true, false).phase, ScriptPhase::Paused);
    assert!(StateUpdate::new(true, false, false, true, false).capture);
    assert!(!StateUpdate::new(false, false, false, true, false).capture);
    assert!(!StateUpdate::new(true, true, false, true, false).capture);
}

#[test]
fn state_update_projects_locked_only_while_a_script_is_loaded() {
    assert!(StateUpdate::new(true, true, false, false, true).locked);
    assert!(StateUpdate::new(true, true, true, false, true).locked);
    assert!(!StateUpdate::new(true, false, false, false, true).locked);
    assert!(!StateUpdate::new(false, false, false, false, true).locked);
}

#[test]
fn script_phase_has_lowercase_wire_names() {
    assert_eq!(StateUpdate::new(true, true, true, false, false).phase_name(), "paused");
    assert_eq!(StateUpdate::new(false, false, false, false, false).phase_name(), "unloaded");
}
