use vstd::prelude::*;

verus! {

/// A request to the script lifecycle, from the console, the hotkey, the
/// bridge or Ctrl+C. Paths are held as the text the user gave.
#[derive(Clone, Debug, PartialEq, Eq)]
pub enum ScriptCommand {
    Load(String),
    LoadLocked(String),
    Reload,
    ReloadLocked,
    Pause,
    Resume,
    ResumeLocked,
    Stop,
    Capture,
    StartCapture,
    StopCapture,
    CaptureConsumed,
    Lock,
    Exit,
    SetPaused(bool),
}

} // verus!
