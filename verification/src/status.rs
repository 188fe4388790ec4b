use vstd::prelude::*;

verus! {

/// Where the script lifecycle stands, as the overlay shows it.
#[derive(Clone, Copy, Debug, PartialEq, Eq, Structural)]
pub enum ScriptPhase {
    Unloaded,
    Stopped,
    Running,
    Paused,
}

/// The state the client publishes to the game overlay.
#[derive(Clone, Copy, Debug, PartialEq, Eq, Structural)]
pub struct StateUpdate {
    pub phase: ScriptPhase,
    pub capture: bool,
    pub locked: bool,
}

/// The phase for a lifecycle with or without a path, a loaded script and a pause.
pub open spec fn phase_of(has_path: bool, script_loaded: bool, paused: bool) -> ScriptPhase {
    if !has_path {
        ScriptPhase::Unloaded
    } else if !script_loaded {
        ScriptPhase::Stopped
    } else if paused {
        ScriptPhase::Paused
    } else {
        ScriptPhase::Running
    }
}

impl StateUpdate {
    /// Projects the lifecycle flags onto the published state: capture is only
    /// shown while a script path is known and the script is stopped or paused,
    /// and the lock only while a script is loaded.
    pub fn new(has_path: bool, script_loaded: bool, paused: bool, capture: bool, locked: bool) -> (update: StateUpdate)
        ensures
            update.phase == phase_of(has_path, script_loaded, paused),
            update.capture == (capture && has_path && (!script_loaded || paused)),
            update.locked == (locked && has_path && script_loaded),
    {
        StateUpdate {
            phase: if !has_path {
                ScriptPhase::Unloaded
            } else if !script_loaded {
                ScriptPhase::Stopped
            } else if paused {
                ScriptPhase::Paused
            } else {
                ScriptPhase::Running
            },
            capture: capture && has_path && (!script_loaded || paused),
            locked: locked && has_path && script_loaded,
        }
    }

    /// The phase's name as the overlay spells it.
    pub fn phase_name(&self) -> (name: &'static str)
        ensures
            self.phase == ScriptPhase::Unloaded ==> name@ == "unloaded"@,
            self.phase == ScriptPhase::Stopped ==> name@ == "stopped"@,
            self.phase == ScriptPhase::Running ==> name@ == "running"@,
            self.phase == ScriptPhase::Paused ==> name@ == "paused"@,
    {
        match self.phase {
            ScriptPhase::Unloaded => "unloaded",
            ScriptPhase::Stopped => "stopped",
            ScriptPhase::Running => "running",
            ScriptPhase::Paused => "paused",
        }
    }
}

/// Law: the published state never shows capture while a script runs
/// unpaused, and never shows the lock unless a script is loaded.
pub proof fn law_state_update_never_captures_while_running(
    has_path: bool,
    script_loaded: bool,
    paused: bool,
    capture: bool,
    locked: bool,
    update: StateUpdate,
)
    requires
        update.phase == phase_of(has_path, script_loaded, paused),
        update.capture == (capture && has_path && (!script_loaded || paused)),
        update.locked == (locked && has_path && script_loaded),
    ensures
        update.phase == ScriptPhase::Running ==> !update.capture,
        update.locked ==> (update.phase == ScriptPhase::Running || update.phase == ScriptPhase::Paused),
        update.capture ==> (update.phase == ScriptPhase::Stopped || update.phase == ScriptPhase::Paused),
{
}

} // verus!
