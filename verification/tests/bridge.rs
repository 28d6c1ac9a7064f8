use hal1210::bridge::ambient;
use hal1210::bridge::automation::{Automation, FrameRequest, LedEvent};
use hal1210::bridge::cec_control::CecController;
use hal1210::bridge::colors::{compute_done, frame_ready, ColorAction, FrameOutcome};
use hal1210::bridge::frame::{
    await_compute_dispatch, led_command_sent, strip_from_colors, ComputeOutcome, FramePipeline,
    FrameStage,
};
use hal1210::bridge::idle::IdleState;
use hal1210::bridge::kinect::KinectHandler;
use hal1210::bridge::messaging::{Messenger, Outgoing};
use hal1210::bridge::{Handler, ScreenEvent};
use hal1210::client::session::DisconnectOutcome;
use hal1210::client::{ClientReq, ClientReqData};
use hal1210::daemoncomm::{
    CecCommand, CecEvent, CecStatus, KinectCommand, KinectEvent, KinectStatus, LedCommand,
    MessageToClientData, MessageToServer, MessageToServerData,
};
use hal1210::gpu::{ComputeError, ComputeOutput};
use hal1210::ledcomm::{zero_state_frame, StateFrame};
use hal1210::wayland::idle::IdleEvent;

const MS: u64 = 1_000_000;

const IDLE: ScreenEvent = ScreenEvent::Idle(IdleEvent::Idle);
const ACTIVE: ScreenEvent = ScreenEvent::Idle(IdleEvent::Active);

fn request(addr: u64, id: u128, data: MessageToServerData) -> ClientReq {
    ClientReq::new(addr, MessageToServer { id, data })
}

fn gone(addr: u64) -> ClientReq {
    ClientReq { addr, data: ClientReqData::Disconnected }
}

fn status(text: &str) -> KinectStatus {
    KinectStatus {
        connected: true,
        status: text.to_string(),
        device_serial: None,
        firmware_version: None,
        depth_active: false,
        rgb_active: true,
    }
}

/// One line per message, for comparison.
fn lines(messages: Vec<Outgoing>) -> Vec<String> {
    messages.iter().map(line).collect()
}

fn line(message: &Outgoing) -> String {
    match message {
        Outgoing::Led(LedCommand::SetStripState(state)) => format!("led strip {:?}", state[0]),
        Outgoing::Led(LedCommand::FadeOut { duration_ms }) => format!("led out {duration_ms:?}"),
        Outgoing::Led(LedCommand::SetStaticColor(color)) => format!("led color {color:?}"),
        Outgoing::Led(other) => format!("led {}", other.wire_name()),
        Outgoing::Reply(res) => {
            format!("{} {} {}", res.addr, res.msg.id, data_line(&res.msg.data))
        }
        Outgoing::ComputeDone => "next frame".to_string(),
        Outgoing::Kinect { command: KinectCommand::RequestStatus, addr, id } => {
            format!("camera {addr} {id}")
        }
        Outgoing::Cec(command) => format!("cec {command:?}"),
        Outgoing::CancelTimer => "cancel timer".to_string(),
        Outgoing::StartTimer { duration_ms } => format!("start timer {duration_ms}"),
        Outgoing::TimeoutNow => "timeout now".to_string(),
    }
}

fn data_line(data: &MessageToClientData) -> String {
    match data {
        MessageToClientData::Ack => "ack".to_string(),
        MessageToClientData::Nack { reason } => format!("nack {reason}"),
        MessageToClientData::ManualMode { enabled } => format!("manual {enabled}"),
        MessageToClientData::IdleInhibit { enabled, timeout_ms } => {
            format!("inhibit {enabled} {timeout_ms:?}")
        }
        MessageToClientData::Kinect(KinectEvent::Status(status)) => {
            format!("camera {} {}", status.connected, status.status)
        }
        MessageToClientData::Cec(CecEvent::Status(status)) => {
            format!("tv {} {}", status.powered_on, status.active_source)
        }
        MessageToClientData::Cec(CecEvent::Error { message }) => format!("tv error {message}"),
    }
}

fn shown(first: [u8; 3]) -> StateFrame {
    let mut state = zero_state_frame();
    state[0] = first;
    state
}

#[test]
fn led_commands_need_manual_mode() {
    let mut handler = Handler::new();
    handler.handle_client_command(request(1, 10, MessageToServerData::Led(LedCommand::Rainbow)), 0);
    assert_eq!(lines(handler.take_messages()), vec!["1 10 nack manual_mode_disabled"]);
    let manual = MessageToServerData::SetManualMode { enabled: true };
    handler.handle_client_command(request(1, 11, manual), 0);
    assert_eq!(lines(handler.take_messages()), vec!["1 11 manual true", "1 11 ack"]);
    handler.handle_client_command(request(2, 12, MessageToServerData::Led(LedCommand::Rainbow)), 0);
    assert_eq!(lines(handler.take_messages()), vec!["2 12 ack", "led rainbow"]);
    assert!(handler.take_messages().is_empty());
}

#[test]
fn last_client_hands_the_strip_back() {
    let mut handler = Handler::new();
    let manual = MessageToServerData::SetManualMode { enabled: true };
    handler.handle_client_command(request(1, 1, manual), 0);
    handler.handle_client_command(request(2, 2, MessageToServerData::GetManualMode), 0);
    assert_eq!(
        lines(handler.take_messages()),
        vec!["1 1 manual true", "1 1 ack", "2 2 manual true", "2 2 ack"]
    );
    handler.handle_client_command(gone(1), 0);
    assert!(handler.take_messages().is_empty());
    assert_eq!(handler.handle_wayland_event(ScreenEvent::FrameReady), None);
    assert_eq!(handler.handle_client_disconnect(2), DisconnectOutcome::ManualDisabled);
    assert_eq!(lines(handler.take_messages()), vec!["led strip [0, 0, 0]", "next frame"]);
    assert!(handler.handle_wayland_event(ScreenEvent::FrameReady).is_some());
}

#[test]
fn frame_goes_from_screen_to_strip() {
    let mut handler = Handler::new();
    let request = handler.handle_wayland_event(ScreenEvent::FrameReady).unwrap();
    assert_eq!(request, FrameRequest { frame_id: 0, fade_in: false });
    handler.frame_dispatched(request, true, 100);
    let step = await_compute_dispatch(
        ComputeOutcome::Colors(vec![8; 900]),
        request.frame_id,
        false,
        false,
        request.fade_in,
    );
    assert!(matches!(step.led, Some(LedCommand::SetStripState(state)) if state == [[8; 3]; 300]));
    assert!(step.compute_done);
    assert!(step.stage.is_none());
    let stage = led_command_sent(request.frame_id, step.shown.unwrap(), Ok(()));
    assert_eq!(handler.handle_frame_stage(stage), None);
    assert_eq!(handler.handle_led_event(LedEvent::Done), Some((0, 100)));
    assert_eq!(handler.handle_led_event(LedEvent::Done), None);
    assert_eq!(handler.automation.frame_pipeline.last_frame(), [[8; 3]; 300]);
    let next = handler.handle_wayland_event(ScreenEvent::FrameReady).unwrap();
    assert_eq!(next.frame_id, 1);
}

#[test]
fn frames_complete_in_the_order_shown() {
    let mut pipeline = FramePipeline::new();
    for id in 0..3u64 {
        assert_eq!(pipeline.next_frame_id(), id);
        pipeline.record_start(id, 10 * id);
    }
    pipeline.handle_stage(FrameStage::LedDispatched { frame_id: 1, state: shown([1; 3]) });
    pipeline.handle_stage(FrameStage::LedDispatched { frame_id: 0, state: shown([2; 3]) });
    let skipped = FrameStage::Skipped { frame_id: 2, reason: "empty_compute_result" };
    assert_eq!(pipeline.handle_stage(skipped), Some(20));
    assert_eq!(pipeline.last_frame()[0], [2; 3]);
    assert_eq!(pipeline.log_completion(), Some((1, 10)));
    assert_eq!(pipeline.log_completion(), Some((0, 0)));
    assert_eq!(pipeline.log_completion(), None);
}

#[test]
fn aborted_frame_leaves_the_pipeline() {
    let mut pipeline = FramePipeline::new();
    let id = pipeline.next_frame_id();
    pipeline.record_start(id, 5);
    let aborted = FrameStage::Aborted { frame_id: id, reason: "gone".to_string() };
    assert_eq!(pipeline.handle_stage(aborted), None);
    pipeline.handle_stage(FrameStage::LedDispatched { frame_id: id, state: shown([3; 3]) });
    assert_eq!(pipeline.log_completion(), None);
}

#[test]
fn computed_colours_follow_the_mode() {
    let colors = || ComputeOutcome::Colors(vec![1; 900]);
    let dark = await_compute_dispatch(colors(), 3, true, false, false);
    assert!(matches!(dark.led, Some(LedCommand::SetStaticColor([0, 0, 0]))));
    assert!(dark.shown.is_none() && dark.compute_done);
    let manual = await_compute_dispatch(colors(), 3, false, true, false);
    assert!(manual.led.is_none() && manual.shown.is_none() && manual.compute_done);
    let fading = await_compute_dispatch(colors(), 3, false, false, true);
    assert!(matches!(fading.led, Some(LedCommand::FadeIn { duration_ms: None, .. })));
    let empty = await_compute_dispatch(ComputeOutcome::NoPixels, 3, false, false, false);
    assert!(matches!(
        empty.stage,
        Some(FrameStage::Skipped { frame_id: 3, reason: "empty_compute_result" })
    ));
    assert!(empty.compute_done);
    let closed = ComputeOutcome::Closed("channel closed".to_string());
    let closed = await_compute_dispatch(closed, 3, false, false, false);
    assert!(!closed.compute_done);
    match closed.stage {
        Some(FrameStage::Aborted { frame_id, reason }) => {
            assert_eq!(frame_id, 3);
            assert_eq!(reason, "compute channel closed: channel closed");
        }
        other => panic!("unexpected stage: {other:?}"),
    }
    match led_command_sent(4, shown([1; 3]), Err("full".to_string())) {
        FrameStage::Aborted { frame_id, reason } => {
            assert_eq!(frame_id, 4);
            assert_eq!(reason, "failed to send LED command: full");
        }
        other => panic!("unexpected stage: {other:?}"),
    }
}

#[test]
fn strip_takes_the_first_channels() {
    let colors: Vec<u8> = (0..1000u32).map(|i| (i % 251) as u8).collect();
    let state = strip_from_colors(&colors);
    assert_eq!(state[0], [0, 1, 2]);
    assert_eq!(state[299], [144, 145, 146]);
}

#[test]
fn ambient_light_follows_the_seat() {
    let mut handler = ambient::Handler::new();
    handler.handle_wayland_event(IDLE);
    assert!(handler.idle);
    assert_eq!(lines(handler.take_messages()), vec!["led out None"]);
    handler.handle_wayland_event(IDLE);
    assert!(handler.take_messages().is_empty());
    assert_eq!(handler.handle_wayland_event(ScreenEvent::FrameReady), None);
    handler.handle_wayland_event(ACTIVE);
    assert_eq!(lines(handler.take_messages()), vec!["next frame"]);
    let request = handler.handle_wayland_event(ScreenEvent::FrameReady).unwrap();
    assert!(request.fade_in);
    handler.frame_dispatched(request, false, 0);
    let request = handler.handle_wayland_event(ScreenEvent::FrameReady).unwrap();
    assert!(request.fade_in);
    handler.frame_dispatched(request, true, 0);
    let request = handler.handle_wayland_event(ScreenEvent::FrameReady).unwrap();
    assert!(!request.fade_in);
}

#[test]
fn inhibition_keeps_ambient_light_on() {
    let mut handler = ambient::Handler::new();
    let inhibit = MessageToServerData::SetIdleInhibit { enabled: true, timeout_ms: Some(500) };
    handler.handle_client_command(request(1, 1, inhibit), 10 * MS);
    assert_eq!(
        lines(handler.take_messages()),
        vec!["start timer 500", "1 1 inhibit true Some(500)", "1 1 ack"]
    );
    handler.handle_wayland_event(IDLE);
    assert!(handler.take_messages().is_empty());
    handler.handle_client_command(request(1, 2, MessageToServerData::GetIdleInhibit), 110 * MS);
    assert_eq!(lines(handler.take_messages()), vec!["1 2 inhibit true Some(400)", "1 2 ack"]);
    handler.on_idle_inhibit_timeout();
    assert_eq!(lines(handler.take_messages()), vec!["led out None"]);
    handler.handle_client_command(request(1, 3, MessageToServerData::GetIdleInhibit), 600 * MS);
    assert_eq!(lines(handler.take_messages()), vec!["1 3 inhibit false None", "1 3 ack"]);
}

#[test]
fn manual_mode_while_idle_ends_dark() {
    let mut automation = Automation::new();
    automation.register_client(1);
    automation.handle_manual_mode_request(true, 1, 1, true);
    assert!(automation.manual_started_while_idle);
    automation.messenger.take();
    automation.handle_manual_mode_request(true, 1, 2, false);
    assert!(automation.pending_fade_in);
    assert_eq!(
        lines(automation.messenger.take()),
        vec!["led out None", "1 2 manual false", "1 2 ack"]
    );
    automation.handle_manual_mode_request(false, 1, 3, true);
    automation.messenger.take();
    automation.handle_manual_mode_request(true, 1, 4, false);
    assert_eq!(
        lines(automation.messenger.take()),
        vec!["led strip [0, 0, 0]", "led out None", "1 4 manual false", "1 4 ack"]
    );
}

#[test]
fn inhibition_timer_is_replaced_and_cancelled() {
    let mut messenger = Messenger::new();
    let mut idle = IdleState::new();
    assert!(idle.apply_inhibit(true, Some(100), 0, &mut messenger));
    assert!(!idle.apply_inhibit(true, Some(100), 40 * MS, &mut messenger));
    assert_eq!(idle.remaining_inhibit_ms(90 * MS), Some(50));
    assert_eq!(idle.remaining_inhibit_ms(500 * MS), Some(0));
    assert!(idle.apply_inhibit(true, Some(0), 0, &mut messenger));
    assert!(idle.apply_inhibit(true, None, 0, &mut messenger));
    assert_eq!(idle.remaining_inhibit_ms(0), None);
    assert!(idle.apply_inhibit(false, Some(7), 0, &mut messenger));
    assert_eq!(idle, IdleState::new());
    let sent = lines(messenger.take());
    assert_eq!(sent[..4], ["start timer 100", "cancel timer", "start timer 100", "cancel timer"]);
    assert_eq!(sent[4], "timeout now");
}

#[test]
fn camera_requests_wait_for_a_status() {
    let mut handler = Handler::new();
    let ask = MessageToServerData::Kinect(KinectCommand::RequestStatus);
    handler.handle_client_command(request(1, 1, ask), 0);
    handler.handle_client_command(request(2, 2, ask), 0);
    assert_eq!(lines(handler.take_messages()), vec!["camera 1 1", "camera 2 2"]);
    handler.kinect_command_refused(2, 2);
    assert_eq!(
        lines(handler.take_messages()),
        vec!["2 2 camera false kinect command channel closed"]
    );
    handler.handle_kinect_event(KinectEvent::Status(status("ready")));
    let mut sent = lines(handler.take_messages());
    assert_eq!(sent.remove(0), "1 1 camera true ready");
    sent.sort();
    assert_eq!(sent, vec!["1 0 camera true ready", "2 0 camera true ready"]);
    handler.handle_client_command(request(2, 3, ask), 0);
    assert_eq!(lines(handler.take_messages()), vec!["2 3 camera true ready"]);
}

#[test]
fn unavailable_camera_is_said_so() {
    let mut kinect = KinectHandler::new();
    let mut messenger = Messenger::new();
    kinect.handle_command(1, 1, KinectCommand::RequestStatus, &mut messenger);
    kinect.handle_event(KinectEvent::Status(status("on")), &vec![], &mut messenger);
    assert_eq!(lines(messenger.take()), vec!["camera 1 1", "1 1 camera true on"]);
    messenger.send_kinect_unavailable(3, 4, None);
    let sent = messenger.take();
    match &sent[0] {
        Outgoing::Reply(res) => match &res.msg.data {
            MessageToClientData::Kinect(KinectEvent::Status(status)) => {
                assert!(!status.connected);
                assert!(!status.rgb_active);
                assert_eq!(status.device_serial, None);
            }
            other => panic!("unexpected reply: {other:?}"),
        },
        other => panic!("unexpected message: {other:?}"),
    }
}

#[test]
fn television_requests_are_answered_once() {
    let mut cec = CecController::new();
    let mut messenger = Messenger::new();
    assert!(cec.handle_client_command(1, 1, CecCommand::RequestStatus, &mut messenger));
    cec.command_sent(1, 1, CecCommand::RequestStatus, true, &mut messenger);
    assert!(cec.handle_client_command(2, 2, CecCommand::PowerOn, &mut messenger));
    cec.command_sent(2, 2, CecCommand::PowerOn, true, &mut messenger);
    assert!(cec.handle_client_command(3, 3, CecCommand::RequestStatus, &mut messenger));
    cec.command_sent(3, 3, CecCommand::RequestStatus, false, &mut messenger);
    assert_eq!(
        lines(messenger.take()),
        vec!["cec RequestStatus", "cec PowerOn", "2 2 ack", "cec RequestStatus", "3 3 nack cec_unavailable"]
    );
    let status = CecStatus { powered_on: true, active_source: false };
    let event = CecEvent::Status(status);
    assert_eq!(cec.handle_event(event, &vec![7], &mut messenger), Some(status));
    assert_eq!(
        lines(messenger.take()),
        vec!["1 1 tv true false", "1 1 ack", "7 0 tv true false"]
    );
    assert!(!cec.handle_client_command(1, 9, CecCommand::RequestStatus, &mut messenger));
    let event = CecEvent::Error { message: "no adapter".to_string() };
    assert_eq!(cec.handle_event(event, &vec![7], &mut messenger), None);
    cec.request_status(&mut messenger);
    cec.power_on(&mut messenger);
    cec.power_off(&mut messenger);
    assert_eq!(
        lines(messenger.take()),
        vec![
            "1 9 tv true false",
            "1 9 ack",
            "7 0 tv error no adapter",
            "cec RequestStatus",
            "cec PowerOn",
            "cec PowerOff"
        ]
    );
}

#[test]
fn compute_results_reach_the_leds_before_the_next_frame() {
    assert_eq!(frame_ready(None), FrameOutcome::Await);
    assert_eq!(frame_ready(Some(&ComputeError::DispatchInFlight)), FrameOutcome::Skipped);
    assert_eq!(frame_ready(Some(&ComputeError::NoDmabuf)), FrameOutcome::NoBuffer);
    assert_eq!(frame_ready(Some(&ComputeError::EmptyDmabuf)), FrameOutcome::EmptyBuffer);
    assert_eq!(frame_ready(Some(&ComputeError::NoComputeQueue)), FrameOutcome::Failed);
    let output = ComputeOutput { sum_r: 1, sum_g: 2, sum_b: 3, pixel_count: 1 };
    assert_eq!(
        compute_done(Some(output)),
        vec![ColorAction::HandleColors(output), ColorAction::ComputeDone]
    );
    assert!(compute_done(None).is_empty());
}
