use hal1210::cli::commands::{command, CommandKind, DurationField, COMMAND_COUNT};
use hal1210::cli::input::{ColorInput, DurationInput, Key, KeyCode};
use hal1210::cli::view::{Piece, Tone};
use hal1210::cli::{
    format_kinect_status, App, IdleInhibitState, ManualModeState, Request, LOG_CAPACITY,
};
use hal1210::daemoncomm::{
    CecEvent, CecStatus, KinectEvent, KinectStatus, LedCommand, MessageToClient,
    MessageToClientData, MessageToServerData,
};

const ID: u128 = 0x0123_4567_89ab_cdef_0011_2233_4455_6677;
const ID_TEXT: &str = "01234567-89ab-cdef-0011-223344556677";

fn key(code: KeyCode) -> Key {
    Key { code, control: false }
}

fn press(app: &mut App, code: KeyCode) -> Option<Request> {
    app.on_key_event(key(code))
}

fn type_text(app: &mut App, text: &str) {
    for c in text.chars() {
        assert!(press(app, KeyCode::Char(c)).is_none());
    }
}

fn select(app: &mut App, label: &str) {
    press(app, KeyCode::Home);
    while app.selected_descriptor().label != label {
        press(app, KeyCode::Down);
    }
}

fn receive(app: &mut App, id: u128, data: MessageToClientData) {
    app.handle_incoming_message(MessageToClient { id, data });
}

fn last_log(app: &App) -> &str {
    app.log(app.log_count() - 1)
}

fn line_text(line: &[Piece]) -> String {
    line.iter().map(|piece| piece.text.as_str()).collect()
}

#[test]
fn selection_moves_within_the_list() {
    let mut app = App::new();
    app.start();
    assert!(app.is_running());
    assert_eq!(app.selected(), 0);
    press(&mut app, KeyCode::Up);
    assert_eq!(app.selected(), 0);
    press(&mut app, KeyCode::PageDown);
    press(&mut app, KeyCode::Down);
    assert_eq!(app.selected(), 4);
    press(&mut app, KeyCode::End);
    press(&mut app, KeyCode::PageDown);
    assert_eq!(app.selected(), COMMAND_COUNT - 1);
    press(&mut app, KeyCode::PageUp);
    assert_eq!(app.selected(), COMMAND_COUNT - 4);
    press(&mut app, KeyCode::Home);
    assert_eq!(app.selected(), 0);
}

#[test]
fn several_keys_quit() {
    for quit in [
        key(KeyCode::Esc),
        key(KeyCode::Char('q')),
        Key { code: KeyCode::Char('c'), control: true },
        Key { code: KeyCode::Char('C'), control: true },
    ] {
        let mut app = App::new();
        app.start();
        app.on_key_event(quit);
        assert!(!app.is_running());
    }
    let mut app = App::new();
    app.start();
    press(&mut app, KeyCode::Char('c'));
    assert!(app.is_running());
}

#[test]
fn every_command_has_its_request() {
    let mut app = App::new();
    let label = |request: Option<Request>| request.unwrap().label;
    press(&mut app, KeyCode::Home);
    assert_eq!(label(press(&mut app, KeyCode::Enter)), "Get manual mode");
    select(&mut app, "Enable manual mode");
    let request = press(&mut app, KeyCode::Enter).unwrap();
    assert!(matches!(request.data, MessageToServerData::SetManualMode { enabled: true }));
    select(&mut app, "Disable manual mode");
    let request = press(&mut app, KeyCode::Enter).unwrap();
    assert!(matches!(request.data, MessageToServerData::SetManualMode { enabled: false }));
    select(&mut app, "Get idle inhibit");
    assert_eq!(label(press(&mut app, KeyCode::Enter)), "Get idle inhibit");
    select(&mut app, "Disable idle inhibit");
    let request = press(&mut app, KeyCode::Enter).unwrap();
    assert!(matches!(
        request.data,
        MessageToServerData::SetIdleInhibit { enabled: false, timeout_ms: None }
    ));
    select(&mut app, "Get Kinect status");
    assert_eq!(label(press(&mut app, KeyCode::Enter)), "Get Kinect status");
    select(&mut app, "Rainbow");
    let request = press(&mut app, KeyCode::Enter).unwrap();
    assert!(matches!(request.data, MessageToServerData::Led(LedCommand::Rainbow)));
    select(&mut app, "Fade out");
    let request = press(&mut app, KeyCode::Enter).unwrap();
    assert!(matches!(
        request.data,
        MessageToServerData::Led(LedCommand::FadeOut { duration_ms: Some(3_000) })
    ));
    let logged = app.log_count();
    select(&mut app, "Set strip state (full frame)");
    assert!(press(&mut app, KeyCode::Enter).is_none());
    assert_eq!(app.log_count(), logged + 1);
    assert_eq!(last_log(&app), "error: That command is not supported in this UI yet.");
}

#[test]
fn colours_are_typed_in() {
    let mut app = App::new();
    select(&mut app, "Set static color");
    press(&mut app, KeyCode::Char('e'));
    assert!(app.is_editing_color());
    while app.color_text() != "#______" {
        press(&mut app, KeyCode::Backspace);
    }
    type_text(&mut app, "q0ax1");
    assert_eq!(app.color_text(), "#0A1___");
    press(&mut app, KeyCode::Enter);
    assert!(!app.is_editing_color());
    assert!(press(&mut app, KeyCode::Enter).is_none());
    assert_eq!(last_log(&app), "error: Provide a full #RRGGBB color before sending.");
    press(&mut app, KeyCode::Char('e'));
    type_text(&mut app, "BfFf77");
    assert_eq!(app.color_text(), "#0A1BFF");
    assert!(app.color_is_complete());
    press(&mut app, KeyCode::Esc);
    let request = press(&mut app, KeyCode::Enter).unwrap();
    assert!(matches!(
        request.data,
        MessageToServerData::Led(LedCommand::SetStaticColor([0x0a, 0x1b, 0xff]))
    ));
    select(&mut app, "Breathing effect");
    let request = press(&mut app, KeyCode::Enter).unwrap();
    assert!(matches!(
        request.data,
        MessageToServerData::Led(LedCommand::Breathing([0x0a, 0x1b, 0xff]))
    ));
}

#[test]
fn durations_are_typed_in() {
    let mut app = App::new();
    select(&mut app, "Enable idle inhibit");
    assert_eq!(app.duration(DurationField::IdleInhibit), None);
    assert_eq!(app.duration_text(DurationField::IdleInhibit), "none");
    press(&mut app, KeyCode::Char('t'));
    assert!(app.is_editing_duration(DurationField::IdleInhibit));
    type_text(&mut app, "12q3");
    press(&mut app, KeyCode::Up);
    press(&mut app, KeyCode::Backspace);
    assert_eq!(app.duration_text(DurationField::IdleInhibit), "12 ms");
    press(&mut app, KeyCode::Enter);
    let request = press(&mut app, KeyCode::Enter).unwrap();
    assert!(matches!(
        request.data,
        MessageToServerData::SetIdleInhibit { enabled: true, timeout_ms: Some(12) }
    ));
    select(&mut app, "Fade out");
    press(&mut app, KeyCode::Char('t'));
    assert!(app.is_editing_duration(DurationField::FadeOut));
    type_text(&mut app, "999999999999");
    assert_eq!(app.duration(DurationField::FadeOut), Some(300_099_999));
    for _ in 0..9 {
        press(&mut app, KeyCode::Backspace);
    }
    press(&mut app, KeyCode::Esc);
    assert!(app.duration(DurationField::FadeOut).is_some() == false);
    assert_eq!(app.duration_label(DurationField::FadeOut), "Fade out duration");
}

#[test]
fn fields_stand_alone_too() {
    let mut color = ColorInput::new();
    assert!(!color.handle_key(key(KeyCode::Char('1'))));
    color.toggle_editing();
    assert!(color.handle_key(key(KeyCode::Char('1'))));
    assert!(!color.handle_key(key(KeyCode::Up)));
    let mut duration = DurationInput::new("Delay", Some(40));
    assert_eq!(duration.label(), "Delay");
    assert_eq!(duration.formatted(), "40 ms");
    duration.toggle_editing();
    assert!(duration.handle_key(key(KeyCode::Char('7'))));
    assert!(duration.handle_key(key(KeyCode::Up)));
    assert_eq!(duration.value(), Some(407));
    duration.stop_editing();
    assert!(!duration.is_editing());
}

#[test]
fn manual_key_waits_for_the_answer() {
    let mut app = App::new();
    assert_eq!(app.manual_state(), ManualModeState::Unknown);
    receive(&mut app, 0, MessageToClientData::ManualMode { enabled: false });
    assert_eq!(app.manual_state(), ManualModeState::Disabled);
    assert_eq!(last_log(&app), "daemon reports manual mode disabled");
    let request = press(&mut app, KeyCode::Char('m')).unwrap();
    assert_eq!(request.label, "Enable manual mode");
    let message = app.try_send(&request).unwrap();
    assert!(matches!(message.data, MessageToServerData::SetManualMode { enabled: true }));
    app.sent(&request, ID);
    assert_eq!(app.manual_state(), ManualModeState::PendingEnable);
    assert_eq!(app.pending_count(), 1);
    assert_eq!(last_log(&app), format!("sent Enable manual mode ({ID_TEXT})"));
    assert!(press(&mut app, KeyCode::Char('m')).is_none());
    receive(&mut app, ID, MessageToClientData::Ack);
    assert_eq!(app.pending_count(), 0);
    assert_eq!(last_log(&app), format!("ack: Enable manual mode ({ID_TEXT})"));
    receive(&mut app, ID, MessageToClientData::ManualMode { enabled: true });
    assert_eq!(press(&mut app, KeyCode::Char('m')).unwrap().label, "Disable manual mode");
}

#[test]
fn idle_key_switches_the_inhibition() {
    let mut app = App::new();
    let request = press(&mut app, KeyCode::Char('i')).unwrap();
    assert_eq!(request.label, "Enable idle inhibit");
    app.sent(&request, ID);
    assert_eq!(app.idle_inhibit_state(), IdleInhibitState::PendingEnable);
    assert!(press(&mut app, KeyCode::Char('i')).is_none());
    receive(&mut app, 0, MessageToClientData::IdleInhibit { enabled: true, timeout_ms: Some(70) });
    assert_eq!(last_log(&app), "daemon reports idle inhibit enabled (timeout: 70 ms)");
    assert_eq!(press(&mut app, KeyCode::Char('i')).unwrap().label, "Disable idle inhibit");
    receive(&mut app, 0, MessageToClientData::IdleInhibit { enabled: false, timeout_ms: None });
    assert_eq!(last_log(&app), "daemon reports idle inhibit disabled");
}

#[test]
fn answers_settle_requests() {
    let mut app = App::new();
    let request = press(&mut app, KeyCode::Enter).unwrap();
    app.sent(&request, ID);
    let reason = || MessageToClientData::Nack { reason: "busy".to_string() };
    receive(&mut app, ID, reason());
    assert_eq!(last_log(&app), "error: nack for Get manual mode: busy");
    receive(&mut app, ID, reason());
    assert_eq!(last_log(&app), format!("error: nack {ID_TEXT}: busy"));
    receive(&mut app, ID, MessageToClientData::Ack);
    assert_eq!(last_log(&app), format!("ack: {ID_TEXT}"));
    let logged = app.log_count();
    let status = CecStatus { powered_on: true, active_source: true };
    receive(&mut app, ID, MessageToClientData::Cec(CecEvent::Status(status)));
    assert_eq!(app.log_count(), logged);
}

#[test]
fn camera_status_is_one_line() {
    let mut status = KinectStatus {
        connected: true,
        status: "rgb streaming 1280x1024".to_string(),
        device_serial: Some("A1".to_string()),
        firmware_version: Some("2.0".to_string()),
        depth_active: false,
        rgb_active: true,
    };
    assert_eq!(
        format_kinect_status(&status),
        "connected · serial=A1 · fw=2.0 · depth=off · rgb=on · status=rgb streaming 1280x1024"
    );
    status.connected = false;
    status.device_serial = None;
    status.firmware_version = None;
    let mut app = App::new();
    receive(&mut app, 0, MessageToClientData::Kinect(KinectEvent::Status(status)));
    assert_eq!(
        last_log(&app),
        "kinect status · disconnected · depth=off · rgb=on · status=rgb streaming 1280x1024"
    );
}

#[test]
fn log_keeps_the_newest_messages() {
    let mut app = App::new();
    for id in 0..LOG_CAPACITY as u128 + 5 {
        receive(&mut app, id, MessageToClientData::Ack);
    }
    assert_eq!(app.log_count(), LOG_CAPACITY);
    assert_eq!(last_log(&app), "ack: 00000000-0000-0000-0000-0000000000cc");
    assert_eq!(app.log(0), "ack: 00000000-0000-0000-0000-000000000005");
    let shown = app.render_logs();
    assert_eq!(shown.len(), 7);
    assert_eq!(line_text(&shown[6]), last_log(&app));
}

#[test]
fn leaving_gives_control_back() {
    let mut app = App::new();
    assert!(app.shutdown_manual().is_none());
    assert!(app.shutdown_idle().is_none());
    receive(&mut app, 0, MessageToClientData::ManualMode { enabled: true });
    receive(&mut app, 0, MessageToClientData::IdleInhibit { enabled: true, timeout_ms: None });
    let request = app.shutdown_manual().unwrap();
    assert!(matches!(request.data, MessageToServerData::SetManualMode { enabled: false }));
    app.send_failed(&request, "connection closed");
    assert_eq!(
        last_log(&app),
        "error: failed to disable manual mode: failed to send Disable manual mode: connection closed"
    );
    let request = app.shutdown_idle().unwrap();
    assert!(matches!(
        request.data,
        MessageToServerData::SetIdleInhibit { enabled: false, timeout_ms: None }
    ));
    assert!(app.disconnect());
    assert!(!app.disconnect());
    assert!(app.try_send(&request).is_none());
    assert_eq!(last_log(&app), "error: failed to disable idle inhibit: client disconnected");
}

#[test]
fn closed_connection_ends_the_console() {
    let mut app = App::new();
    app.start();
    app.connection_closed();
    assert!(!app.is_running());
    assert_eq!(last_log(&app), "error: Connection to daemon closed.");
}

#[test]
fn states_are_shown() {
    let mut app = App::new();
    let header = app.render_header();
    assert_eq!(line_text(&header[0]), "Manual mode: unknown");
    assert_eq!(header[0][0].tone, Tone::Bold);
    assert_eq!(header[0][1].tone, Tone::Yellow);
    assert_eq!(line_text(&header[1]), "Idle inhibit: unknown · timeout: none");
    assert_eq!(line_text(&header[2]), "Pending requests: 0");
    assert_eq!(ManualModeState::PendingEnable.label_and_style(), ("requesting control", Tone::LightYellow));
    assert_eq!(IdleInhibitState::Enabled.label_and_style(), ("enabled", Tone::Green));
    assert_eq!(line_text(&app.render_logs()[0]), "Activity will appear here.");

    let list = app.render_command_list();
    assert_eq!(list.len(), COMMAND_COUNT);
    assert_eq!(list[0].text, "Get manual mode");
    assert_eq!(list[0].tone, Tone::Cyan);
    assert_eq!(list[7].text, "Set static color · color");
    assert_eq!(list[12].text, "Fade in frame (full frame) (unsupported)");
    assert_eq!(list[12].tone, Tone::DarkGray);

    select(&mut app, "Fade out");
    let detail = app.render_command_detail();
    assert_eq!(line_text(&detail[0]), "Quickly fade all LEDs to black.");
    assert_eq!(line_text(&detail[1]), "Fade out duration: 3000 ms");
    assert_eq!(line_text(&detail[3]), "Press Enter to send the highlighted message.");
    assert_eq!(detail.len(), 5);
}

#[test]
fn commands_know_their_fields() {
    assert_eq!(command(0).kind, CommandKind::GetManualMode);
    assert!(command(7).needs_color());
    assert!(!command(9).needs_color());
    assert_eq!(command(9).duration_field(), Some(DurationField::FadeOut));
    assert_eq!(command(4).duration_field(), Some(DurationField::IdleInhibit));
    assert!(!command(11).supported);
}
