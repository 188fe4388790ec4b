use rev_idle::bridge::control::{notification_types, state_reply, PublishAction, PublishEvent, StatePublisher};
use rev_idle::status::{ScriptPhase, StateUpdate};

fn running() -> StateUpdate {
    StateUpdate::new(true, true, false, false, false)
}

fn paused() -> StateUpdate {
    StateUpdate::new(true, true, true, true, true)
}

#[test]
fn publisher_sends_the_current_state_when_a_session_is_already_live() {
    let (publisher, action) = StatePublisher::new(3, running(), false);
    assert_eq!(action, PublishAction::Send(running()));
    assert!(!publisher.stopped);
    assert!(publisher.state_open && publisher.generation_open);
}

#[test]
fn publisher_waits_without_a_session_and_stops_on_early_shutdown() {
    let (publisher, action) = StatePublisher::new(0, running(), true);
    assert_eq!(action, PublishAction::Wait);
    assert!(!publisher.stopped);
    let (publisher, action) = StatePublisher::new(1, running(), true);
    assert_eq!(action, PublishAction::Stop);
    assert!(publisher.stopped);
}

#[test]
fn publisher_sends_on_new_sessions_and_on_changes_while_live() {
    let (mut publisher, _) = StatePublisher::new(0, running(), false);
    let changed = PublishEvent::State { state: Some(paused()), generation: 0, shutdown: false };
    assert_eq!(publisher.step(changed), PublishAction::Wait);
    let session = PublishEvent::Generation { generation: Some(1), state: paused(), shutdown: false };
    assert_eq!(publisher.step(session), PublishAction::Send(paused()));
    let changed = PublishEvent::State { state: Some(running()), generation: 1, shutdown: false };
    assert_eq!(publisher.step(changed), PublishAction::Send(running()));
    let lost = PublishEvent::Generation { generation: Some(0), state: running(), shutdown: false };
    assert_eq!(publisher.step(lost), PublishAction::Wait);
    assert_eq!(paused().phase, ScriptPhase::Paused);
}

#[test]
fn publisher_stops_for_good_on_shutdown() {
    let (mut publisher, _) = StatePublisher::new(2, running(), false);
    let spurious = PublishEvent::Shutdown { closed: false, requested: false };
    assert_eq!(publisher.step(spurious), PublishAction::Wait);
    let shutdown = PublishEvent::Shutdown { closed: false, requested: true };
    assert_eq!(publisher.step(shutdown), PublishAction::Stop);
    let changed = PublishEvent::State { state: Some(paused()), generation: 2, shutdown: false };
    assert_eq!(publisher.step(changed), PublishAction::Stop);
    assert!(publisher.stopped);
}

#[test]
fn publisher_stops_when_the_shutdown_channel_closes_or_a_send_meets_shutdown() {
    let (mut publisher, _) = StatePublisher::new(0, running(), false);
    assert_eq!(publisher.step(PublishEvent::Shutdown { closed: true, requested: false }), PublishAction::Stop);
    let (mut publisher, _) = StatePublisher::new(0, running(), false);
    let changed = PublishEvent::State { state: Some(paused()), generation: 4, shutdown: true };
    assert_eq!(publisher.step(changed), PublishAction::Stop);
}

#[test]
fn publisher_stops_listening_to_closed_channels() {
    let (mut publisher, _) = StatePublisher::new(0, running(), false);
    let closed = PublishEvent::State { state: None, generation: 5, shutdown: false };
    assert_eq!(publisher.step(closed), PublishAction::Wait);
    assert!(!publisher.state_open && publisher.generation_open);
    let closed = PublishEvent::Generation { generation: None, state: running(), shutdown: false };
    assert_eq!(publisher.step(closed), PublishAction::Wait);
    assert!(!publisher.generation_open);
    assert!(!publisher.stopped);
}

#[test]
fn notification_types_are_the_six_overlay_notifications() {
    assert_eq!(
        notification_types(),
        vec!["ReloadScript", "StopScript", "PauseScript", "ResumeScript", "StartCapture", "StopCapture"]
    );
}

#[test]
fn state_replies_must_be_json_objects() {
    assert_eq!(state_reply(true, "{\"score\":\"1e3\"}".to_string()), Ok("{\"score\":\"1e3\"}".to_string()));
    assert_eq!(state_reply(false, "[1]".to_string()), Err("state response must be a JSON object".to_string()));
}
