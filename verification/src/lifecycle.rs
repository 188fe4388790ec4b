use vstd::prelude::*;
use crate::app::concat3;
use crate::command::ScriptCommand;
use crate::pause::{next_word, reset_word, word_paused, ActionGate, PauseUpdate};
use crate::status::StateUpdate;

verus! {

broadcast use vstd::string::group_string_axioms;

/// What the `capture` console command does.
#[derive(Clone, Copy, Debug, PartialEq, Eq, Structural)]
pub enum CaptureAction {
    Enable,
    Disable,
    Reject,
}

/// `capture` toggles mouse capture, but it cannot be started while a script
/// runs unpaused.
pub fn capture_action(enabled: bool, script_loaded: bool, paused: bool) -> (action: CaptureAction)
    ensures
        enabled ==> action == CaptureAction::Disable,
        !enabled && script_loaded && !paused ==> action == CaptureAction::Reject,
        !enabled && !(script_loaded && !paused) ==> action == CaptureAction::Enable,
{
    if enabled {
        CaptureAction::Disable
    } else if script_loaded && !paused {
        CaptureAction::Reject
    } else {
        CaptureAction::Enable
    }
}

/// Turns capture off when a script is running unpaused.
pub fn disable_capture_if_running(capture_enabled: &mut bool, script_loaded: bool, paused: bool)
    ensures
        *final(capture_enabled) == (*old(capture_enabled) && !(script_loaded && !paused)),
{
    if script_loaded && !paused {
        *capture_enabled = false;
    }
}

/// Adopts a pause update from the hotkey. While a script runs, only the
/// gate's current update is adopted; without a script, a current pause is
/// reset so that the action gate never stays closed with nothing to resume.
pub fn apply_hotkey_update(
    update: PauseUpdate,
    gate: &mut ActionGate,
    session_running: bool,
    lifecycle_paused: &mut bool,
) -> (applied: bool)
    ensures
        session_running ==> final(gate).state == old(gate).state,
        session_running ==> applied == (old(gate).state == update.state),
        session_running && applied ==> *final(lifecycle_paused) == word_paused(update.state),
        !session_running ==> applied == (old(gate).state == update.state),
        !session_running && applied ==> !*final(lifecycle_paused) && !word_paused(final(gate).state),
        !session_running && applied ==> final(gate).state == (if word_paused(update.state) {
            reset_word(update.state)
        } else {
            old(gate).state
        }),
        !session_running && !applied ==> final(gate).state == old(gate).state,
        !applied ==> *final(lifecycle_paused) == *old(lifecycle_paused),
{
    if session_running {
        if !gate.is_current(update) {
            return false;
        }
        *lifecycle_paused = update.paused();
        true
    } else if gate.reset_if_current(update) {
        proof {
            if word_paused(update.state) {
                assert(reset_word(update.state) % 2 == 0);
            }
        }
        *lifecycle_paused = false;
        true
    } else {
        false
    }
}

/// Outside work the lifecycle asks for.
#[derive(Debug)]
pub enum Effect {
    /// Nothing to do.
    Nothing,
    /// Load (or reload) the script at the path; report with
    /// [`Lifecycle::finish_load`].
    LoadScript { path: String, reload: bool },
    /// Run the script's `beforePause` hook, then call
    /// [`Lifecycle::complete_pause`].
    RunBeforePauseThenPause,
    /// Run the script's `beforePause` hook (the pause already happened).
    RunBeforePause,
    /// Run the script's `afterResume` hook.
    RunAfterResume,
    /// Leave the lifecycle loop.
    Exit,
}

/// A line to print, on standard output or standard error.
#[derive(Debug)]
pub struct Report {
    pub error: bool,
    pub text: String,
}

/// The result of handling a command or update.
#[derive(Debug)]
pub struct Outcome {
    pub report: Option<Report>,
    pub effect: Effect,
    pub lock: bool,
}

fn say(text: &'static str) -> (report: Option<Report>)
    ensures
        report matches Some(r) && !r.error && r.text@ == text@,
{
    Some(Report { error: false, text: String::from_str(text) })
}

fn complain(text: &'static str) -> (report: Option<Report>)
    ensures
        report matches Some(r) && r.error && r.text@ == text@,
{
    Some(Report { error: true, text: String::from_str(text) })
}

fn outcome(report: Option<Report>, effect: Effect) -> (o: Outcome)
    ensures
        o.report == report,
        o.effect == effect,
        !o.lock,
{
    Outcome { report, effect, lock: false }
}

/// What the lifecycle loop publishes at the start of an iteration.
#[derive(Debug)]
pub struct Sync {
    pub console_locked: bool,
    pub publish: Option<StateUpdate>,
}

/// The state the overlay is shown for a lifecycle.
pub open spec fn lifecycle_state(lifecycle: Lifecycle, capture_enabled: bool, locked: bool) -> StateUpdate {
    StateUpdate {
        phase: crate::status::phase_of(lifecycle.current_path is Some, lifecycle.loaded, lifecycle.paused),
        capture: capture_enabled && lifecycle.current_path is Some && (!lifecycle.loaded || lifecycle.paused),
        locked: locked && lifecycle.current_path is Some && lifecycle.loaded,
    }
}

/// The script lifecycle: the script path in use, whether a script session is
/// loaded, and whether it is paused. Mouse capture is never left armed while
/// a script runs unpaused.
pub struct Lifecycle {
    pub current_path: Option<String>,
    pub loaded: bool,
    pub paused: bool,
}

/// The invariant tying capture to the lifecycle.
pub open spec fn capture_consistent(lifecycle: Lifecycle, capture_enabled: bool) -> bool {
    &&& lifecycle.loaded && !lifecycle.paused ==> !capture_enabled
    &&& !lifecycle.loaded ==> !lifecycle.paused
}

impl Lifecycle {
    /// A lifecycle with the given initial path and nothing loaded yet.
    pub fn new(initial_path: Option<String>) -> (lifecycle: Lifecycle)
        ensures
            lifecycle.current_path == initial_path,
            !lifecycle.loaded,
            !lifecycle.paused,
    {
        Lifecycle { current_path: initial_path, loaded: false, paused: false }
    }

    /// Whether a script is loaded and not paused.
    pub fn is_running(&self) -> (running: bool)
        ensures
            running == (self.loaded && !self.paused),
    {
        self.loaded && !self.paused
    }

    /// The state to publish.
    pub fn state_update(&self, capture_enabled: bool, locked: bool) -> (update: StateUpdate)
        ensures
            update.phase == crate::status::phase_of(self.current_path is Some, self.loaded, self.paused),
            update.capture == (capture_enabled && self.current_path is Some && (!self.loaded || self.paused)),
            update.locked == (locked && self.current_path is Some && self.loaded),
    {
        StateUpdate::new(self.current_path.is_some(), self.loaded, self.paused, capture_enabled, locked)
    }

    /// What the lifecycle loop publishes before it waits again: whether the
    /// console is locked (a script runs unpaused), and the state to send when
    /// it differs from what was last published.
    pub fn sync(&self, capture_enabled: bool, locked: bool, published: StateUpdate) -> (sync: Sync)
        ensures
            sync.console_locked == (self.loaded && !self.paused),
            sync.publish == (if published == lifecycle_state(*self, capture_enabled, locked) {
                None
            } else {
                Some(lifecycle_state(*self, capture_enabled, locked))
            }),
    {
        let state = self.state_update(capture_enabled, locked);
        let publish = if state == published {
            None
        } else {
            Some(state)
        };
        Sync { console_locked: self.is_running(), publish }
    }

    fn unload(&mut self, gate: &mut ActionGate, capture_enabled: &mut bool)
        ensures
            !final(self).loaded,
            !final(self).paused,
            final(self).current_path == old(self).current_path,
            !*final(capture_enabled),
            final(gate).state == next_word(old(gate).state, false),
    {
        *capture_enabled = false;
        gate.set_paused(false);
        self.loaded = false;
        self.paused = false;
    }

    /// Handles a command. Loading, hooks and exit are left to the caller as
    /// the returned effect.
    pub fn handle_command(
        &mut self,
        command: ScriptCommand,
        gate: &mut ActionGate,
        capture_enabled: &mut bool,
    ) -> (result: Outcome)
        requires
            capture_consistent(*old(self), *old(capture_enabled)),
        ensures
            capture_consistent(*final(self), *final(capture_enabled)),
            command_outcome(command, *old(self), *old(capture_enabled), old(gate).state, *final(self), *final(capture_enabled), final(gate).state, result),
    {
        match command {
            ScriptCommand::Load(path) => self.start_load(path, false, false, gate, capture_enabled),
            ScriptCommand::LoadLocked(path) => self.start_load(path, false, true, gate, capture_enabled),
            ScriptCommand::Reload => self.start_reload(false, gate, capture_enabled),
            ScriptCommand::ReloadLocked => self.start_reload(true, gate, capture_enabled),
            ScriptCommand::Pause => {
                if !self.loaded {
                    gate.set_paused(false);
                    outcome(say("no script is running"), Effect::Nothing)
                } else if self.paused {
                    gate.set_paused(true);
                    outcome(say("script is already paused"), Effect::Nothing)
                } else {
                    outcome(None, Effect::RunBeforePauseThenPause)
                }
            },
            ScriptCommand::Resume => self.resume(false, gate, capture_enabled),
            ScriptCommand::ResumeLocked => self.resume(true, gate, capture_enabled),
            ScriptCommand::Stop => {
                gate.set_paused(false);
                if self.loaded {
                    self.loaded = false;
                    self.paused = false;
                    outcome(say("script stopped"), Effect::Nothing)
                } else {
                    outcome(say("script is already stopped"), Effect::Nothing)
                }
            },
            ScriptCommand::Capture => match capture_action(*capture_enabled, self.loaded, self.paused) {
                CaptureAction::Enable => {
                    *capture_enabled = true;
                    outcome(say("mouse capture started"), Effect::Nothing)
                },
                CaptureAction::Disable => {
                    *capture_enabled = false;
                    outcome(say("mouse capture stopped"), Effect::Nothing)
                },
                CaptureAction::Reject => outcome(
                    complain("cannot capture while script is running"),
                    Effect::Nothing,
                ),
            },
            ScriptCommand::StartCapture => {
                if !self.loaded || self.paused {
                    *capture_enabled = true;
                }
                outcome(None, Effect::Nothing)
            },
            ScriptCommand::StopCapture => {
                *capture_enabled = false;
                outcome(None, Effect::Nothing)
            },
            ScriptCommand::CaptureConsumed => {
                *capture_enabled = false;
                outcome(None, Effect::Nothing)
            },
            ScriptCommand::Lock => Outcome { report: None, effect: Effect::Nothing, lock: true },
            ScriptCommand::Exit => {
                *capture_enabled = false;
                gate.set_paused(false);
                outcome(None, Effect::Exit)
            },
            ScriptCommand::SetPaused(requested) => {
                let update = gate.current_update();
                if update.paused() == requested {
                    self.hotkey_update(update, gate, capture_enabled)
                } else {
                    outcome(None, Effect::Nothing)
                }
            },
        }
    }

    fn start_load(
        &mut self,
        path: String,
        reload: bool,
        lock: bool,
        gate: &mut ActionGate,
        capture_enabled: &mut bool,
    ) -> (result: Outcome)
        ensures
            !final(self).loaded && !final(self).paused && !*final(capture_enabled),
            final(gate).state == next_word(old(gate).state, false),
            final(self).current_path matches Some(p) && p@ == path@,
            result.effect matches Effect::LoadScript { path: p, reload: r } && p@ == path@ && r == reload,
            result.report is None,
            result.lock == lock,
    {
        self.unload(gate, capture_enabled);
        let copy = path.clone();
        self.current_path = Some(path);
        Outcome { report: None, effect: Effect::LoadScript { path: copy, reload }, lock }
    }

    fn start_reload(&mut self, lock: bool, gate: &mut ActionGate, capture_enabled: &mut bool) -> (result: Outcome)
        ensures
            !final(self).loaded && !final(self).paused && !*final(capture_enabled),
            final(gate).state == next_word(old(gate).state, false),
            final(self).current_path == old(self).current_path,
            old(self).current_path matches Some(p) ==> (result.effect matches Effect::LoadScript { path: q, reload: r }
                && q@ == p@ && r && result.report is None && result.lock == lock),
            old(self).current_path is None ==> only_says(result, false, "no script is loaded; use load <script-path>"@),
    {
        self.unload(gate, capture_enabled);
        match &self.current_path {
            Some(path) => Outcome {
                report: None,
                effect: Effect::LoadScript { path: path.clone(), reload: true },
                lock,
            },
            None => outcome(say("no script is loaded; use load <script-path>"), Effect::Nothing),
        }
    }

    fn resume(&mut self, lock: bool, gate: &mut ActionGate, capture_enabled: &mut bool) -> (result: Outcome)
        requires
            capture_consistent(*old(self), *old(capture_enabled)),
        ensures
            capture_consistent(*final(self), *final(capture_enabled)),
            resume_outcome(lock, *old(self), *old(capture_enabled), old(gate).state, *final(self), *final(capture_enabled), final(gate).state, result),
    {
        if !self.loaded {
            gate.set_paused(false);
            outcome(say("script is stopped; use reload or load"), Effect::Nothing)
        } else if self.paused {
            *capture_enabled = false;
            gate.set_paused(false);
            self.paused = false;
            Outcome { report: say("script resumed"), effect: Effect::RunAfterResume, lock }
        } else {
            gate.set_paused(false);
            outcome(say("script is already running"), Effect::Nothing)
        }
    }

    /// Finishes a `Pause` command after the `beforePause` hook ran.
    pub fn complete_pause(&mut self, gate: &mut ActionGate) -> (report: Report)
        requires
            old(self).loaded,
        ensures
            final(self).paused,
            final(self).loaded == old(self).loaded,
            final(self).current_path == old(self).current_path,
            final(gate).state == next_word(old(gate).state, true),
            word_paused(final(gate).state),
            report.text@ == "script paused"@ && !report.error,
    {
        gate.set_paused(true);
        self.paused = true;
        Report { error: false, text: String::from_str("script paused") }
    }

    /// Records the result of loading the script at the current path.
    pub fn finish_load(&mut self, loaded: Result<(), String>, reload: bool) -> (report: Report)
        requires
            !old(self).paused,
        ensures
            final(self).loaded == (loaded is Ok),
            !final(self).paused,
            final(self).current_path == old(self).current_path,
            loaded matches Err(e) ==> report.error && report.text@ == e@,
            loaded is Ok ==> (old(self).current_path matches Some(p) ==> !report.error && report.text@ == (if reload {
                "reloaded "@
            } else {
                "running "@
            }) + p@),
    {
        match loaded {
            Ok(()) => {
                self.loaded = true;
                let path = match &self.current_path {
                    Some(p) => p.clone(),
                    None => String::new(),
                };
                let verb = if reload { "reloaded " } else { "running " };
                let mut text = String::from_str(verb);
                text.append(path.as_str());
                Report { error: false, text }
            },
            Err(error) => {
                self.loaded = false;
                Report { error: true, text: error }
            },
        }
    }

    /// Adopts a hotkey pause update and reports it the way the pause and
    /// resume commands do, asking for the matching hook.
    pub fn hotkey_update(&mut self, update: PauseUpdate, gate: &mut ActionGate, capture_enabled: &mut bool) -> (result: Outcome)
        requires
            capture_consistent(*old(self), *old(capture_enabled)),
        ensures
            capture_consistent(*final(self), *final(capture_enabled)),
            hotkey_outcome(update, *old(self), old(gate).state, *final(self), final(gate).state, result),
            *final(capture_enabled) == (*old(capture_enabled) && !(final(self).loaded && !final(self).paused)),
    {
        let was_paused = self.paused;
        let mut paused = self.paused;
        let applied = apply_hotkey_update(update, gate, self.loaded, &mut paused);
        self.paused = paused;
        disable_capture_if_running(capture_enabled, self.loaded, self.paused);
        if !applied {
            return outcome(None, Effect::Nothing);
        }
        if !self.loaded {
            outcome(say("no script is running"), Effect::Nothing)
        } else if self.paused == was_paused {
            if self.paused {
                outcome(say("script is already paused"), Effect::Nothing)
            } else {
                outcome(say("script is already running"), Effect::Nothing)
            }
        } else if self.paused {
            outcome(say("script paused"), Effect::RunBeforePause)
        } else {
            outcome(say("script resumed"), Effect::RunAfterResume)
        }
    }

    /// Whether an invocation's result stops the script: a stop request, or a
    /// failure that is not explained by the action gate having closed meanwhile.
    pub fn invocation_stops(result: &Result<bool, String>, gate_paused: bool) -> (stop: bool)
        ensures
            result matches Ok(requested) ==> stop == *requested,
            result is Err ==> stop == !gate_paused,
    {
        match result {
            Ok(requested) => *requested,
            Err(_) => !gate_paused,
        }
    }

    /// Stops the script after its invocation asked to stop or failed.
    pub fn stop_after_invocation(&mut self, gate: &mut ActionGate) -> (report: Report)
        ensures
            !final(self).loaded && !final(self).paused,
            final(self).current_path == old(self).current_path,
            final(gate).state == next_word(old(gate).state, false),
            !word_paused(final(gate).state),
            report.text@ == "script stopped"@ && !report.error,
    {
        gate.set_paused(false);
        self.loaded = false;
        self.paused = false;
        Report { error: false, text: String::from_str("script stopped") }
    }
}

/// What a hotkey update does to the lifecycle.
pub open spec fn hotkey_outcome(
    update: PauseUpdate,
    before: Lifecycle,
    gate_before: u64,
    after: Lifecycle,
    gate_after: u64,
    result: Outcome,
) -> bool {
    let applied = gate_before == update.state;
    &&& after.loaded == before.loaded
    &&& after.current_path == before.current_path
    &&& before.loaded ==> gate_after == gate_before
    &&& !applied ==> after.paused == before.paused && gate_after == gate_before && result.effect is Nothing
        && result.report is None
    &&& applied && before.loaded ==> after.paused == word_paused(update.state)
    &&& applied && !before.loaded ==> gate_after == (if word_paused(update.state) {
        reset_word(update.state)
    } else {
        gate_before
    })
    &&& applied && !before.loaded ==> !after.paused && !word_paused(gate_after) && only_says(
        result,
        false,
        "no script is running"@,
    )
    &&& applied && before.loaded && after.paused && !before.paused ==> result.effect is RunBeforePause && says(
        result.report,
        false,
        "script paused"@,
    )
    &&& applied && before.loaded && !after.paused && before.paused ==> result.effect is RunAfterResume && says(
        result.report,
        false,
        "script resumed"@,
    )
    &&& applied && before.loaded && after.paused == before.paused ==> only_says(
        result,
        false,
        if after.paused {
            "script is already paused"@
        } else {
            "script is already running"@
        },
    )
    &&& !result.lock
}

/// Whether `report` is a line with exactly `text`, on standard error when
/// `error`.
pub open spec fn says(report: Option<Report>, error: bool, text: Seq<char>) -> bool {
    report matches Some(r) && r.error == error && r.text@ == text
}

/// An outcome with only a line to print: no outside work and no lock.
pub open spec fn only_says(result: Outcome, error: bool, text: Seq<char>) -> bool {
    says(result.report, error, text) && result.effect is Nothing && !result.lock
}

/// An outcome that prints nothing, asks for no outside work and no lock.
pub open spec fn quiet(result: Outcome) -> bool {
    result.report is None && result.effect is Nothing && !result.lock
}

/// What a load command does: unload, adopt the path, and ask for the load.
pub open spec fn load_outcome(
    path: Seq<char>,
    lock: bool,
    gate_before: u64,
    after: Lifecycle,
    capture_after: bool,
    gate_after: u64,
    result: Outcome,
) -> bool {
    &&& !after.loaded && !after.paused && !capture_after && gate_after == next_word(gate_before, false)
    &&& after.current_path matches Some(p) && p@ == path
    &&& result.effect matches Effect::LoadScript { path: p, reload: r } && p@ == path && !r
    &&& result.report is None
    &&& result.lock == lock
}

/// What a reload command does: unload, and reload the current path if any.
pub open spec fn reload_outcome(
    lock: bool,
    before: Lifecycle,
    gate_before: u64,
    after: Lifecycle,
    capture_after: bool,
    gate_after: u64,
    result: Outcome,
) -> bool {
    &&& !after.loaded && !after.paused && !capture_after && gate_after == next_word(gate_before, false)
    &&& after.current_path == before.current_path
    &&& before.current_path matches Some(p) ==> (result.effect matches Effect::LoadScript { path: q, reload: r }
        && q@ == p@ && r && result.lock == lock && result.report is None)
    &&& before.current_path is None ==> only_says(result, false, "no script is loaded; use load <script-path>"@)
}

/// What a resume command does.
pub open spec fn resume_outcome(
    lock: bool,
    before: Lifecycle,
    capture_before: bool,
    gate_before: u64,
    after: Lifecycle,
    capture_after: bool,
    gate_after: u64,
    result: Outcome,
) -> bool {
    &&& after.loaded == before.loaded && after.current_path == before.current_path && !after.paused
    &&& gate_after == next_word(gate_before, false)
    &&& before.loaded && before.paused ==> result.effect is RunAfterResume && !capture_after && says(
        result.report,
        false,
        "script resumed"@,
    ) && result.lock == lock
    &&& !(before.loaded && before.paused) ==> capture_after == capture_before
    &&& !before.loaded ==> only_says(result, false, "script is stopped; use reload or load"@)
    &&& before.loaded && !before.paused ==> only_says(result, false, "script is already running"@)
}

/// What a command does to the lifecycle, the capture flag and the action
/// gate, what it prints, what outside work it asks for and whether it locks
/// the screen.
pub open spec fn command_outcome(
    command: ScriptCommand,
    before: Lifecycle,
    capture_before: bool,
    gate_before: u64,
    after: Lifecycle,
    capture_after: bool,
    gate_after: u64,
    result: Outcome,
) -> bool {
    match command {
        ScriptCommand::Load(path) => load_outcome(path@, false, gate_before, after, capture_after, gate_after, result),
        ScriptCommand::LoadLocked(path) => load_outcome(path@, true, gate_before, after, capture_after, gate_after, result),
        ScriptCommand::Reload => reload_outcome(false, before, gate_before, after, capture_after, gate_after, result),
        ScriptCommand::ReloadLocked => reload_outcome(true, before, gate_before, after, capture_after, gate_after, result),
        ScriptCommand::Pause => {
            &&& after == before && capture_after == capture_before
            &&& !before.loaded ==> gate_after == next_word(gate_before, false) && only_says(
                result,
                false,
                "no script is running"@,
            )
            &&& before.loaded && before.paused ==> gate_after == next_word(gate_before, true) && only_says(
                result,
                false,
                "script is already paused"@,
            )
            &&& before.loaded && !before.paused ==> gate_after == gate_before && result.effect is RunBeforePauseThenPause
                && result.report is None && !result.lock
        },
        ScriptCommand::Resume => resume_outcome(false, before, capture_before, gate_before, after, capture_after, gate_after, result),
        ScriptCommand::ResumeLocked => resume_outcome(true, before, capture_before, gate_before, after, capture_after, gate_after, result),
        ScriptCommand::Stop => {
            &&& !after.loaded && !after.paused && after.current_path == before.current_path
            &&& capture_after == capture_before && gate_after == next_word(gate_before, false)
            &&& only_says(result, false, if before.loaded {
                "script stopped"@
            } else {
                "script is already stopped"@
            })
        },
        ScriptCommand::Capture => {
            &&& after == before && gate_after == gate_before
            &&& capture_before ==> !capture_after && only_says(result, false, "mouse capture stopped"@)
            &&& !capture_before && before.loaded && !before.paused ==> !capture_after && only_says(
                result,
                true,
                "cannot capture while script is running"@,
            )
            &&& !capture_before && !(before.loaded && !before.paused) ==> capture_after && only_says(
                result,
                false,
                "mouse capture started"@,
            )
        },
        ScriptCommand::StartCapture => {
            &&& after == before && gate_after == gate_before && quiet(result)
            &&& capture_after == (capture_before || !before.loaded || before.paused)
        },
        ScriptCommand::StopCapture => after == before && gate_after == gate_before && !capture_after && quiet(result),
        ScriptCommand::CaptureConsumed => after == before && gate_after == gate_before && !capture_after && quiet(
            result,
        ),
        ScriptCommand::Lock => {
            &&& after == before && gate_after == gate_before && capture_after == capture_before
            &&& result.report is None && result.effect is Nothing && result.lock
        },
        ScriptCommand::Exit => {
            &&& after == before && !capture_after && gate_after == next_word(gate_before, false)
            &&& result.report is None && result.effect is Exit && !result.lock
        },
        ScriptCommand::SetPaused(requested) => {
            &&& word_paused(gate_before) == requested ==> hotkey_outcome(
                PauseUpdate { state: gate_before },
                before,
                gate_before,
                after,
                gate_after,
                result,
            )
            &&& word_paused(gate_before) != requested ==> after == before && gate_after == gate_before
                && capture_after == capture_before && quiet(result)
        },
    }
}

/// Law: no command or hotkey update leaves mouse capture armed while a
/// script runs unpaused.
pub proof fn law_capture_never_armed_while_running(
    command: ScriptCommand,
    before: Lifecycle,
    capture_before: bool,
    gate_before: u64,
    after: Lifecycle,
    capture_after: bool,
    gate_after: u64,
    result: Outcome,
)
    requires
        capture_consistent(before, capture_before),
        command_outcome(command, before, capture_before, gate_before, after, capture_after, gate_after, result),
        command is SetPaused ==> capture_after == (capture_before && !(after.loaded && !after.paused)),
    ensures
        capture_consistent(after, capture_after),
{
}

/// Law: after each iteration's sync the published state is the lifecycle's
/// own state, the console is locked exactly while a script runs unpaused, and
/// a state is sent only when it differs from the one already published.
pub proof fn law_sync_publishes_the_lifecycle(
    lifecycle: Lifecycle,
    capture_enabled: bool,
    locked: bool,
    published: StateUpdate,
    sync: Sync,
)
    requires
        sync.console_locked == (lifecycle.loaded && !lifecycle.paused),
        sync.publish == (if published == lifecycle_state(lifecycle, capture_enabled, locked) {
            None
        } else {
            Some(lifecycle_state(lifecycle, capture_enabled, locked))
        }),
    ensures
        (match sync.publish {
            Some(update) => update,
            None => published,
        }) == lifecycle_state(lifecycle, capture_enabled, locked),
        sync.publish matches Some(update) ==> update != published,
        sync.console_locked == (lifecycle.loaded && !lifecycle.paused),
        sync.console_locked ==> !lifecycle_state(lifecycle, capture_enabled, locked).capture,
{
}

} // verus!
