use vstd::prelude::*;
use crate::command::ScriptCommand;
use crate::status::StateUpdate;
use crate::text::{chars_equal, chars_of};

verus! {

broadcast use vstd::string::group_string_axioms;

/// The overlay's notifications the client acts on, by packet type.
pub open spec fn notification_for(packet_type: Seq<char>) -> Option<ScriptCommand> {
    if packet_type == "ReloadScript"@ {
        Some(ScriptCommand::Reload)
    } else if packet_type == "StopScript"@ {
        Some(ScriptCommand::Stop)
    } else if packet_type == "PauseScript"@ {
        Some(ScriptCommand::Pause)
    } else if packet_type == "ResumeScript"@ {
        Some(ScriptCommand::Resume)
    } else if packet_type == "StartCapture"@ {
        Some(ScriptCommand::StartCapture)
    } else if packet_type == "StopCapture"@ {
        Some(ScriptCommand::StopCapture)
    } else {
        None
    }
}

/// Whether `s` holds exactly the characters of `word`.
fn is_word(s: &[char], word: &str) -> (eq: bool)
    ensures
        eq == (s@ == word@),
{
    let w = chars_of(word);
    chars_equal(s, w.as_slice())
}

/// The lifecycle command an overlay notification asks for; these carry no
/// response.
pub fn notification_command(packet_type: &str) -> (command: Option<ScriptCommand>)
    ensures
        command == notification_for(packet_type@),
{
    let t = chars_of(packet_type);
    if is_word(t.as_slice(), "ReloadScript") {
        Some(ScriptCommand::Reload)
    } else if is_word(t.as_slice(), "StopScript") {
        Some(ScriptCommand::Stop)
    } else if is_word(t.as_slice(), "PauseScript") {
        Some(ScriptCommand::Pause)
    } else if is_word(t.as_slice(), "ResumeScript") {
        Some(ScriptCommand::Resume)
    } else if is_word(t.as_slice(), "StartCapture") {
        Some(ScriptCommand::StartCapture)
    } else if is_word(t.as_slice(), "StopCapture") {
        Some(ScriptCommand::StopCapture)
    } else {
        None
    }
}

/// The notification types a handler is registered for, in order.
pub fn notification_types() -> (types: Vec<&'static str>)
    ensures
        types@.len() == 6,
        types@[0]@ == "ReloadScript"@,
        types@[1]@ == "StopScript"@,
        types@[2]@ == "PauseScript"@,
        types@[3]@ == "ResumeScript"@,
        types@[4]@ == "StartCapture"@,
        types@[5]@ == "StopCapture"@,
        forall|i: int| 0 <= i < 6 ==> notification_for(#[trigger] types@[i]@) is Some,
{
    let mut types: Vec<&'static str> = Vec::new();
    types.push("ReloadScript");
    types.push("StopScript");
    types.push("PauseScript");
    types.push("ResumeScript");
    types.push("StartCapture");
    types.push("StopCapture");
    proof {
        reveal_strlit("ReloadScript");
        reveal_strlit("StopScript");
        reveal_strlit("PauseScript");
        reveal_strlit("ResumeScript");
        reveal_strlit("StartCapture");
        reveal_strlit("StopCapture");
    }
    types
}

/// What the publisher of the client's state hears from its three channels.
#[derive(Clone, Copy, Debug, PartialEq, Eq, Structural)]
pub enum PublishEvent {
    /// The shutdown signal changed; `closed` when its sender is gone.
    Shutdown { closed: bool, requested: bool },
    /// The session generation changed to `generation` (`None` once its
    /// channel is closed); `state` is the state current at that moment and
    /// `shutdown` whether shutdown has been asked for.
    Generation { generation: Option<u64>, state: StateUpdate, shutdown: bool },
    /// The state changed to `state` (`None` once its channel is closed);
    /// `generation` is the session generation current at that moment.
    State { state: Option<StateUpdate>, generation: u64, shutdown: bool },
}

/// What the publisher does next.
#[derive(Clone, Copy, Debug, PartialEq, Eq, Structural)]
pub enum PublishAction {
    /// Stop publishing for good.
    Stop,
    /// Send this state to the overlay, unless shutdown comes first.
    Send(StateUpdate),
    /// Keep listening.
    Wait,
}

/// The publisher's state: which channels it still listens to, and whether it
/// has stopped. Generation 0 means that no session is live.
#[derive(Clone, Copy, Debug, PartialEq, Eq, Structural)]
pub struct StatePublisher {
    pub stopped: bool,
    pub state_open: bool,
    pub generation_open: bool,
}

/// Sends `state` while a session is live, unless shutdown was asked for.
pub open spec fn send_if_live(generation: u64, state: StateUpdate, shutdown: bool) -> PublishAction {
    if generation == 0 {
        PublishAction::Wait
    } else if shutdown {
        PublishAction::Stop
    } else {
        PublishAction::Send(state)
    }
}

/// The publisher after `event`, and what it does.
pub open spec fn publish_step(p: StatePublisher, event: PublishEvent) -> (StatePublisher, PublishAction) {
    if p.stopped {
        (p, PublishAction::Stop)
    } else {
        let (next, action) = match event {
            PublishEvent::Shutdown { closed, requested } => (
                p,
                if closed || requested { PublishAction::Stop } else { PublishAction::Wait },
            ),
            PublishEvent::Generation { generation: None, .. } => (
                StatePublisher { generation_open: false, ..p },
                PublishAction::Wait,
            ),
            PublishEvent::Generation { generation: Some(g), state, shutdown } => (p, send_if_live(g, state, shutdown)),
            PublishEvent::State { state: None, .. } => (StatePublisher { state_open: false, ..p }, PublishAction::Wait),
            PublishEvent::State { state: Some(s), generation, shutdown } => (p, send_if_live(generation, s, shutdown)),
        };
        (StatePublisher { stopped: action == PublishAction::Stop, ..next }, action)
    }
}

impl StatePublisher {
    /// A publisher that listens to both channels. `start` says what it does
    /// with the generation and state current when it starts: a live session
    /// gets the state at once.
    pub fn new(generation: u64, state: StateUpdate, shutdown: bool) -> (start: (StatePublisher, PublishAction))
        ensures
            start.1 == send_if_live(generation, state, shutdown),
            start.0 == (StatePublisher { stopped: start.1 == PublishAction::Stop, state_open: true, generation_open: true }),
    {
        let action = if generation == 0 {
            PublishAction::Wait
        } else if shutdown {
            PublishAction::Stop
        } else {
            PublishAction::Send(state)
        };
        let stopped = match action {
            PublishAction::Stop => true,
            _ => false,
        };
        (StatePublisher { stopped, state_open: true, generation_open: true }, action)
    }

    /// Takes one event.
    pub fn step(&mut self, event: PublishEvent) -> (action: PublishAction)
        ensures
            (*final(self), action) == publish_step(*old(self), event),
    {
        if self.stopped {
            return PublishAction::Stop;
        }
        let action = match event {
            PublishEvent::Shutdown { closed, requested } => {
                if closed || requested {
                    PublishAction::Stop
                } else {
                    PublishAction::Wait
                }
            },
            PublishEvent::Generation { generation: None, .. } => {
                self.generation_open = false;
                PublishAction::Wait
            },
            PublishEvent::Generation { generation: Some(g), state, shutdown } => {
                if g == 0 {
                    PublishAction::Wait
                } else if shutdown {
                    PublishAction::Stop
                } else {
                    PublishAction::Send(state)
                }
            },
            PublishEvent::State { state: None, .. } => {
                self.state_open = false;
                PublishAction::Wait
            },
            PublishEvent::State { state: Some(s), generation, shutdown } => {
                if generation == 0 {
                    PublishAction::Wait
                } else if shutdown {
                    PublishAction::Stop
                } else {
                    PublishAction::Send(s)
                }
            },
        };
        if let PublishAction::Stop = action {
            self.stopped = true;
        }
        action
    }
}

/// Law: a stopped publisher stays stopped and sends nothing more.
pub proof fn law_stopped_publisher_stays_silent(p: StatePublisher, event: PublishEvent)
    requires
        p.stopped,
    ensures
        publish_step(p, event).0.stopped,
        publish_step(p, event).1 == PublishAction::Stop,
{
}

/// Law: the publisher sends only while a session is live and no shutdown was
/// asked for, and what it sends is the state current at that moment.
pub proof fn law_publishes_only_live_sessions(p: StatePublisher, event: PublishEvent, sent: StateUpdate)
    requires
        publish_step(p, event).1 == PublishAction::Send(sent),
    ensures
        !p.stopped,
        match event {
            PublishEvent::Shutdown { .. } => false,
            PublishEvent::Generation { generation, state, shutdown } => generation is Some && generation->0 != 0 && !shutdown && sent == state,
            PublishEvent::State { state, generation, shutdown } => generation != 0 && !shutdown && state == Some(sent),
        },
{
}

/// Law: a closed channel is never listened to again.
pub proof fn law_closed_channels_stay_closed(p: StatePublisher, event: PublishEvent)
    ensures
        !p.state_open ==> !publish_step(p, event).0.state_open,
        !p.generation_open ==> !publish_step(p, event).0.generation_open,
{
}

/// The message a state reply that is not a JSON object is refused with.
pub const STATE_NOT_OBJECT: &'static str = "state response must be a JSON object";

/// What a script gets from a state reply: its JSON text when the reply's
/// value is a JSON object, otherwise [`STATE_NOT_OBJECT`].
pub fn state_reply(is_object: bool, json: String) -> (reply: Result<String, String>)
    ensures
        is_object ==> (reply matches Ok(text) && text@ == json@),
        !is_object ==> (reply matches Err(e) && e@ == STATE_NOT_OBJECT@),
{
    if is_object {
        Ok(json)
    } else {
        Err(String::from_str(STATE_NOT_OBJECT))
    }
}

} // verus!
