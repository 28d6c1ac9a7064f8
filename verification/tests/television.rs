use hal1210::cec::{
    CecAction, CecManager, CecReply, CecSnapshot, CecStep, COMMAND_RETRY_COUNT,
    POWER_ON_VERIFY_ATTEMPTS,
};
use hal1210::daemoncomm::{CecCommand, CecEvent, CecStatus};

const OFF: CecSnapshot = CecSnapshot { powered_on: false, active_source: false };
const ON: CecSnapshot = CecSnapshot { powered_on: true, active_source: false };
const SHOWN: CecSnapshot = CecSnapshot { powered_on: true, active_source: true };

/// The step's only event.
fn event(step: &CecStep) -> &CecEvent {
    assert_eq!(step.publish.len(), 1);
    &step.publish[0]
}

fn status(step: &CecStep) -> CecStatus {
    match event(step) {
        CecEvent::Status(status) => *status,
        other => panic!("unexpected event: {other:?}"),
    }
}

fn error(step: &CecStep) -> &str {
    match event(step) {
        CecEvent::Error { message } => message,
        other => panic!("unexpected event: {other:?}"),
    }
}

/// The step publishes nothing and asks for `action`.
fn asks(step: CecStep, action: CecAction) {
    assert!(step.publish.is_empty());
    assert_eq!(step.action, Some(action));
}

#[test]
fn power_off_is_reported_when_sent() {
    let mut manager = CecManager::new(Some(SHOWN));
    asks(manager.handle_command(CecCommand::PowerOff), CecAction::Standby);
    let step = manager.resume(CecReply::Sent(true));
    assert_eq!(step.action, None);
    assert_eq!(status(&step), CecStatus { powered_on: false, active_source: false });
    assert_eq!(manager, CecManager::new(Some(CecSnapshot::powered_off())));
}

#[test]
fn power_on_waits_until_the_television_answers() {
    let mut manager = CecManager::new(Some(OFF));
    asks(manager.handle_command(CecCommand::PowerOn), CecAction::Standby);
    asks(manager.resume(CecReply::Sent(true)), CecAction::Sleep { ms: 1_500 });
    asks(manager.resume(CecReply::Slept), CecAction::SetActiveSource);
    asks(manager.resume(CecReply::Sent(true)), CecAction::Sleep { ms: 1_500 });
    asks(manager.resume(CecReply::Slept), CecAction::Sleep { ms: 1_000 });
    asks(manager.resume(CecReply::Slept), CecAction::Query);
    asks(manager.resume(CecReply::State(OFF)), CecAction::PowerOn);
    asks(manager.resume(CecReply::Sent(true)), CecAction::SetActiveSource);
    asks(manager.resume(CecReply::Sent(false)), CecAction::Sleep { ms: 1_000 });
    asks(manager.resume(CecReply::Slept), CecAction::Query);
    asks(manager.resume(CecReply::State(ON)), CecAction::SetActiveSource);
    asks(manager.resume(CecReply::Sent(true)), CecAction::Query);
    let step = manager.resume(CecReply::State(SHOWN));
    assert_eq!(step.action, None);
    assert_eq!(status(&step), CecStatus { powered_on: true, active_source: true });
    assert_eq!(manager.runtime, Some(SHOWN));
    assert_eq!(manager.run, None);
}

#[test]
fn silent_television_costs_the_connection() {
    let mut manager = CecManager::new(Some(OFF));
    manager.handle_command(CecCommand::PowerOn);
    manager.resume(CecReply::Sent(true));
    manager.resume(CecReply::Slept);
    manager.resume(CecReply::Sent(true));
    manager.resume(CecReply::Slept);
    for _ in 0..POWER_ON_VERIFY_ATTEMPTS {
        assert_eq!(manager.runtime, Some(OFF));
        asks(manager.resume(CecReply::Slept), CecAction::Query);
        asks(manager.resume(CecReply::State(OFF)), CecAction::PowerOn);
        asks(manager.resume(CecReply::Sent(true)), CecAction::SetActiveSource);
        manager.resume(CecReply::Sent(true));
    }
    assert_eq!(manager.runtime, None);
    asks(manager.resume(CecReply::Slept), CecAction::Connect);
}

#[test]
fn command_is_given_up_after_its_attempts() {
    let mut manager = CecManager::new(None);
    asks(manager.handle_command(CecCommand::PowerOn), CecAction::Connect);
    for attempt in 1..=COMMAND_RETRY_COUNT {
        let step = manager.resume(CecReply::ConnectFailed("no adapter".to_string()));
        assert_eq!(error(&step), "cec reconnection failed: no adapter");
        assert_eq!(step.action, Some(CecAction::Sleep { ms: 500 }));
        let step = manager.resume(CecReply::Slept);
        if attempt < COMMAND_RETRY_COUNT {
            asks(step, CecAction::Connect);
        } else {
            assert_eq!(error(&step), "cec command power_on failed after 10 attempts");
            assert_eq!(step.action, None);
        }
    }
    assert_eq!(manager, CecManager::new(None));
}

#[test]
fn failed_commands_are_named() {
    for (command, text) in [
        (CecCommand::PowerOff, "cec command power_off failed after 10 attempts"),
        (
            CecCommand::RequestActiveSource,
            "cec command request_active_source failed after 10 attempts",
        ),
    ] {
        let mut manager = CecManager::new(None);
        manager.handle_command(command);
        for _ in 1..COMMAND_RETRY_COUNT {
            manager.resume(CecReply::Connected(OFF));
            manager.resume(CecReply::Sent(false));
            assert_eq!(manager.runtime, None);
            manager.resume(CecReply::Slept);
        }
        manager.resume(CecReply::Connected(OFF));
        manager.resume(CecReply::Sent(false));
        assert_eq!(error(&manager.resume(CecReply::Slept)), text);
    }
}

#[test]
fn new_connection_is_reported_first() {
    let mut manager = CecManager::new(None);
    asks(manager.handle_command(CecCommand::RequestStatus), CecAction::Connect);
    let step = manager.resume(CecReply::Connected(OFF));
    assert_eq!(step.publish.len(), 2);
    assert_eq!(step.action, None);
    let mut manager = CecManager::new(None);
    manager.handle_command(CecCommand::RequestStatus);
    let step = manager.resume(CecReply::ConnectFailed("busy".to_string()));
    assert_eq!(error(&step), "cec reconnection failed: busy");
    assert_eq!(step.action, None);
}

#[test]
fn active_source_ends_with_a_status() {
    let mut manager = CecManager::new(Some(ON));
    asks(manager.handle_command(CecCommand::RequestActiveSource), CecAction::SetActiveSource);
    asks(manager.resume(CecReply::Sent(true)), CecAction::Query);
    assert!(status(&manager.resume(CecReply::State(SHOWN))).active_source);
}

#[test]
fn polling_reports_changes_only() {
    let mut manager = CecManager::new(Some(ON));
    asks(manager.poll_status(), CecAction::Query);
    let step = manager.resume(CecReply::State(ON));
    assert!(step.publish.is_empty());
    assert_eq!(step.action, None);
    asks(manager.poll_status(), CecAction::Query);
    assert_eq!(status(&manager.resume(CecReply::State(OFF))), OFF.status());
    let step = manager.poll_status();
    assert!(step.publish.is_empty());
    assert_eq!(step.action, None);
}
