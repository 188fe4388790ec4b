use vstd::prelude::*;
use crate::app::concat3;
use crate::pause::{next_word, word_paused, ActionGate, PauseUpdate};

verus! {

broadcast use vstd::string::group_string_axioms;

/// The id the pause hotkey (F8) is registered under.
pub const HOTKEY_ID: i32 = 1;

/// The Win32 message a registered hotkey sends.
pub const WM_HOTKEY: u32 = 0x0312;

/// What the hotkey thread's message loop received.
#[derive(Clone, Copy, Debug, PartialEq, Eq, Structural)]
pub enum HotkeyEvent {
    /// The pause hotkey was pressed.
    Pressed,
    /// Some other message.
    Continue,
    /// The loop was asked to quit.
    Quit,
}

/// Reads a `GetMessageW` result: -1 is a failure, 0 asks to quit, anything
/// else is a message, which is a press when it is our hotkey.
pub fn hotkey_event(get_message: i32, message: u32, wparam: u64) -> (event: Result<HotkeyEvent, String>)
    ensures
        get_message == -1 ==> (event matches Err(e) && e@ == "GetMessageW failed"@),
        get_message == 0 ==> event == Ok::<HotkeyEvent, String>(HotkeyEvent::Quit),
        get_message != -1 && get_message != 0 ==> event == Ok::<HotkeyEvent, String>(
            if message == WM_HOTKEY && wparam == HOTKEY_ID as u64 {
                HotkeyEvent::Pressed
            } else {
                HotkeyEvent::Continue
            },
        ),
{
    if get_message == -1 {
        Err(String::from_str("GetMessageW failed"))
    } else if get_message != 0 {
        if message == WM_HOTKEY && wparam == 1 {
            Ok(HotkeyEvent::Pressed)
        } else {
            Ok(HotkeyEvent::Continue)
        }
    } else {
        Ok(HotkeyEvent::Quit)
    }
}

/// What the hotkey loop does after an event.
#[derive(Debug)]
pub enum HotkeyStep {
    /// Publish the new pause update and keep going.
    Publish(PauseUpdate),
    /// Keep going.
    Continue,
    /// Leave the loop with this result (then unregister the hotkey).
    Stop(Result<(), String>),
}

/// One turn of the hotkey loop: a press flips the action gate first and then
/// publishes the new update, so actions stop before anyone hears of the
/// pause; a quit ends the loop; a failure ends it with that error.
pub fn hotkey_step(gate: &mut ActionGate, event: Result<HotkeyEvent, String>) -> (step: HotkeyStep)
    ensures
        event == Ok::<HotkeyEvent, String>(HotkeyEvent::Pressed) ==> final(gate).state == next_word(
            old(gate).state,
            !word_paused(old(gate).state),
        ) && (step matches HotkeyStep::Publish(update) && update.state == final(gate).state),
        event != Ok::<HotkeyEvent, String>(HotkeyEvent::Pressed) ==> final(gate).state == old(gate).state,
        event == Ok::<HotkeyEvent, String>(HotkeyEvent::Continue) ==> step is Continue,
        event == Ok::<HotkeyEvent, String>(HotkeyEvent::Quit) ==> step == HotkeyStep::Stop(Ok(())),
        event matches Err(e) ==> (step matches HotkeyStep::Stop(Err(m)) && m == e),
{
    match event {
        Ok(HotkeyEvent::Pressed) => HotkeyStep::Publish(gate.toggle()),
        Ok(HotkeyEvent::Continue) => HotkeyStep::Continue,
        Ok(HotkeyEvent::Quit) => HotkeyStep::Stop(Ok(())),
        Err(error) => HotkeyStep::Stop(Err(error)),
    }
}

/// The text of a failed unit result, if it failed.
pub open spec fn failure(r: Result<(), String>) -> Option<Seq<char>> {
    match r {
        Ok(()) => None,
        Err(e) => Some(e@),
    }
}

/// The loop's result once the hotkey was unregistered: an unregister
/// failure is reported, after the loop's own error when there was one.
pub fn finish_hotkey_loop(result: Result<(), String>, unregistered: Result<(), String>) -> (finished: Result<(), String>)
    ensures
        unregistered is Ok ==> finished == result,
        unregistered is Err && result is Ok ==> failure(finished) == Some(
            "failed to unregister hotkey: "@ + failure(unregistered)->0,
        ),
        unregistered is Err && result is Err ==> failure(finished) == Some(
            failure(result)->0 + "; failed to unregister hotkey: "@ + failure(unregistered)->0,
        ),
{
    match unregistered {
        Ok(()) => result,
        Err(error) => match result {
            Ok(()) => {
                let mut message = String::from_str("failed to unregister hotkey: ");
                message.append(error.as_str());
                Err(message)
            },
            Err(first) => Err(concat3(first.as_str(), "; failed to unregister hotkey: ", error.as_str())),
        },
    }
}

/// How a worker thread is shut down after asking it to quit.
#[derive(Debug)]
pub enum ShutdownPlan {
    /// The quit was posted: wait for the thread and take its result.
    Join,
    /// Posting failed but the thread already ended: reap it and report the
    /// failure.
    ReapAndFail(String),
    /// Posting failed and the thread still runs: leave it to a cleanup
    /// thread that keeps asking it to quit, and report the failure.
    DeferAndFail(String),
}

/// Decides how to finish a worker whose quit request had result `posted`.
pub fn shutdown_plan(posted: Result<(), String>, finished: bool) -> (plan: ShutdownPlan)
    ensures
        posted is Ok ==> plan is Join,
        posted is Err && finished ==> (plan matches ShutdownPlan::ReapAndFail(e) && Some(e@) == failure(posted)),
        posted is Err && !finished ==> (plan matches ShutdownPlan::DeferAndFail(e) && Some(e@) == failure(posted)),
{
    match posted {
        Ok(()) => ShutdownPlan::Join,
        Err(error) => if finished {
            ShutdownPlan::ReapAndFail(error)
        } else {
            ShutdownPlan::DeferAndFail(error)
        },
    }
}

/// Law: each press flips the pause flag (and, by `hotkey_step`, the update
/// published is the action gate's new state), so an odd number of presses from a
/// running gate leaves it paused.
pub proof fn law_a_press_flips_the_pause(state: u64)
    ensures
        word_paused(next_word(state, !word_paused(state))) == !word_paused(state),
{
    let g = (state / 2) as int;
    assert((((g + 1) % 0x8000_0000_0000_0000) * 2 + 1) % 2 == 1);
    assert((((g + 1) % 0x8000_0000_0000_0000) * 2) % 2 == 0);
}

} // verus!
