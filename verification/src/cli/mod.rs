//! The console from which the daemon is controlled by hand: what its keys do, what it
//! asks of the daemon, and what it makes of the answers.

use std::collections::{HashMap, VecDeque};

use vstd::prelude::*;

use self::commands::{
    command, CommandDescriptor, CommandKind, DurationField, KinectCommandKind, LedCommandKind,
    COMMAND_COUNT,
};
use self::input::{ColorInput, DurationInput, InputModel, Key, KeyCode};
use crate::daemoncomm::client::prepare;
use crate::daemoncomm::{
    CecEvent, ClientDataModel, KinectCommand, KinectEvent, KinectStatus, KinectStatusModel,
    LedCommand, MessageToClient, MessageToClientData, MessageToServer, MessageToServerData,
};
use crate::ids;
use crate::ids::{id_text, MessageId};
use crate::text;

pub mod commands;
pub mod input;
pub mod view;

verus! {

/// How many messages the log keeps.
pub const LOG_CAPACITY: usize = 200;

pub const DEFAULT_FADE_OUT_DURATION_MS: u64 = 3_000;

#[derive(Debug, Clone, Copy, PartialEq, Eq, Structural)]
pub enum ManualModeState {
    Unknown,
    PendingEnable,
    PendingDisable,
    Enabled,
    Disabled,
}

#[derive(Debug, Clone, Copy, PartialEq, Eq, Structural)]
pub enum IdleInhibitState {
    Unknown,
    PendingEnable,
    PendingDisable,
    Enabled,
    Disabled,
}

/// What changes once a request was sent.
#[derive(Debug, Clone, Copy, PartialEq, Eq, Structural)]
pub enum Goal {
    Nothing,
    Manual(bool),
    IdleInhibit(bool),
}

/// What the daemon is asked for, with colours as sequences.
pub enum Wanted {
    GetManualMode,
    SetManualMode(bool),
    GetIdleInhibit,
    SetIdleInhibit { enabled: bool, timeout_ms: Option<u64> },
    KinectStatus,
    StaticColor(Seq<u8>),
    Breathing(Seq<u8>),
    FadeOut(Option<u64>),
    Rainbow,
    Frame,
}

/// What a message asks for.
pub open spec fn wanted(data: MessageToServerData) -> Wanted {
    match data {
        MessageToServerData::GetManualMode => Wanted::GetManualMode,
        MessageToServerData::SetManualMode { enabled } => Wanted::SetManualMode(enabled),
        MessageToServerData::GetIdleInhibit => Wanted::GetIdleInhibit,
        MessageToServerData::SetIdleInhibit { enabled, timeout_ms } => Wanted::SetIdleInhibit {
            enabled,
            timeout_ms,
        },
        MessageToServerData::Kinect(KinectCommand::RequestStatus) => Wanted::KinectStatus,
        MessageToServerData::Led(LedCommand::SetStaticColor(color)) => Wanted::StaticColor(color@),
        MessageToServerData::Led(LedCommand::Breathing(color)) => Wanted::Breathing(color@),
        MessageToServerData::Led(LedCommand::FadeOut { duration_ms }) => Wanted::FadeOut(
            duration_ms,
        ),
        MessageToServerData::Led(LedCommand::Rainbow) => Wanted::Rainbow,
        MessageToServerData::Led(_) => Wanted::Frame,
    }
}

/// A request that is to be sent to the daemon.
#[derive(Debug, Clone, Copy)]
pub struct Request {
    /// What the request is called in the log.
    pub label: &'static str,
    pub data: MessageToServerData,
    pub goal: Goal,
    /// What stands before the message where it cannot be sent.
    pub context: &'static str,
}

/// The model of [`Request`].
#[verifier::ext_equal]
pub struct RequestModel {
    pub label: Seq<char>,
    pub wanted: Wanted,
    pub goal: Goal,
    pub context: Seq<char>,
}

impl View for Request {
    type V = RequestModel;

    open spec fn view(&self) -> RequestModel {
        RequestModel {
            label: self.label@,
            wanted: wanted(self.data),
            goal: self.goal,
            context: self.context@,
        }
    }
}

/// A request that may be missing.
pub open spec fn request_model(request: Option<Request>) -> Option<RequestModel> {
    match request {
        Some(request) => Some(request@),
        None => None,
    }
}

/// A request that changes nothing by being sent.
pub open spec fn query(label: Seq<char>, wanted: Wanted) -> RequestModel {
    RequestModel { label, wanted, goal: Goal::Nothing, context: ""@ }
}

/// The request for control over the LEDs, or to give it back.
pub open spec fn manual_request(enabled: bool) -> RequestModel {
    RequestModel {
        label: if enabled {
            "Enable manual mode"@
        } else {
            "Disable manual mode"@
        },
        wanted: Wanted::SetManualMode(enabled),
        goal: Goal::Manual(enabled),
        context: ""@,
    }
}

/// The request to keep the LEDs on, or to let them go off.
pub open spec fn idle_request(enabled: bool, timeout_ms: Option<u64>) -> RequestModel {
    RequestModel {
        label: if enabled {
            "Enable idle inhibit"@
        } else {
            "Disable idle inhibit"@
        },
        wanted: Wanted::SetIdleInhibit { enabled, timeout_ms },
        goal: Goal::IdleInhibit(enabled),
        context: ""@,
    }
}

/// The console, as a value.
#[verifier::ext_equal]
pub struct AppModel {
    pub running: bool,
    /// Whether there is a connection to the daemon.
    pub connected: bool,
    pub manual_state: ManualModeState,
    pub idle_inhibit_state: IdleInhibitState,
    /// The place of the selected command.
    pub selected: nat,
    pub color: InputModel,
    pub idle_timeout: InputModel,
    pub fade_out: InputModel,
    /// The newest messages, the oldest first.
    pub logs: Seq<Seq<char>>,
    /// What was asked and is not answered, by its identifier.
    pub pending: Map<u128, Seq<char>>,
}

pub open spec fn on_off(on: bool) -> Seq<char> {
    if on {
        "on"@
    } else {
        "off"@
    }
}

pub open spec fn enabled_text(enabled: bool) -> Seq<char> {
    if enabled {
        "enabled"@
    } else {
        "disabled"@
    }
}

/// A sensor's status in one line.
pub open spec fn kinect_line(status: KinectStatusModel) -> Seq<char> {
    (if status.connected {
        "connected"@
    } else {
        "disconnected"@
    }) + (match status.device_serial {
        Some(serial) => " · serial="@ + serial,
        None => Seq::empty(),
    }) + (match status.firmware_version {
        Some(version) => " · fw="@ + version,
        None => Seq::empty(),
    }) + " · depth="@ + on_off(status.depth_active) + " · rgb="@ + on_off(status.rgb_active)
        + " · status="@ + status.status
}

impl AppModel {
    /// A message is added to the log; the oldest one goes if the log is full.
    pub open spec fn logged(self, message: Seq<char>) -> AppModel {
        AppModel {
            logs: if self.logs.len() == LOG_CAPACITY {
                self.logs.drop_first().push(message)
            } else {
                self.logs.push(message)
            },
            ..self
        }
    }

    pub open spec fn error(self, message: Seq<char>) -> AppModel {
        self.logged("error: "@ + message)
    }

    pub open spec fn duration_field(self, field: DurationField) -> InputModel {
        match field {
            DurationField::IdleInhibit => self.idle_timeout,
            DurationField::FadeOut => self.fade_out,
        }
    }

    /// The place that is reached by going down the list, or up.
    pub open spec fn place(self, delta: int) -> nat {
        if self.selected + delta < 0 {
            0
        } else if self.selected + delta >= COMMAND_COUNT {
            (COMMAND_COUNT - 1) as nat
        } else {
            (self.selected + delta) as nat
        }
    }

    pub open spec fn moved(self, delta: int) -> AppModel {
        AppModel { selected: self.place(delta), ..self }
    }

    pub open spec fn quit(self) -> AppModel {
        AppModel { running: false, ..self }
    }

    /// What the key for manual mode asks for: control is taken where it is known to be
    /// with the daemon, and given back otherwise. Nothing is asked while an answer is
    /// due.
    pub open spec fn manual_key(self) -> Option<RequestModel> {
        match self.manual_state {
            ManualModeState::PendingEnable | ManualModeState::PendingDisable => None,
            ManualModeState::Disabled => Some(manual_request(true)),
            _ => Some(manual_request(false)),
        }
    }

    /// What the key for the idle inhibition asks for: it is lifted where it is known to
    /// be there, and set up otherwise. Nothing is asked while an answer is due.
    pub open spec fn idle_key(self) -> Option<RequestModel> {
        match self.idle_inhibit_state {
            IdleInhibitState::PendingEnable | IdleInhibitState::PendingDisable => None,
            IdleInhibitState::Enabled => Some(idle_request(false, None)),
            _ => Some(idle_request(true, self.idle_timeout.duration())),
        }
    }

    /// What is to be told about the selected command, and what is to be asked for.
    pub open spec fn send(self) -> (AppModel, Option<RequestModel>) {
        let descriptor = commands::command_at(self.selected as int);
        if !descriptor.supported {
            (self.error("That command is not supported in this UI yet."@), None)
        } else {
            match descriptor.kind {
                CommandKind::GetManualMode => (
                    self,
                    Some(query("Get manual mode"@, Wanted::GetManualMode)),
                ),
                CommandKind::Manual(enabled) => (self, Some(manual_request(enabled))),
                CommandKind::GetIdleInhibit => (
                    self,
                    Some(query("Get idle inhibit"@, Wanted::GetIdleInhibit)),
                ),
                CommandKind::IdleInhibit(enabled) => (
                    self,
                    Some(
                        idle_request(
                            enabled,
                            if enabled {
                                self.idle_timeout.duration()
                            } else {
                                None
                            },
                        ),
                    ),
                ),
                CommandKind::Kinect(KinectCommandKind::RequestStatus) => (
                    self,
                    Some(query("Get Kinect status"@, Wanted::KinectStatus)),
                ),
                CommandKind::Led(LedCommandKind::SetStaticColor) => match self.color.color() {
                    Some(color) => (
                        self,
                        Some(query("Set static color"@, Wanted::StaticColor(color))),
                    ),
                    None => (
                        self.error("Provide a full #RRGGBB color before sending."@),
                        None,
                    ),
                },
                CommandKind::Led(LedCommandKind::Breathing) => match self.color.color() {
                    Some(color) => (
                        self,
                        Some(query("Breathing effect"@, Wanted::Breathing(color))),
                    ),
                    None => (
                        self.error("Provide a full #RRGGBB color before sending."@),
                        None,
                    ),
                },
                CommandKind::Led(LedCommandKind::FadeOut) => (
                    self,
                    Some(query("Fade out"@, Wanted::FadeOut(self.fade_out.duration()))),
                ),
                CommandKind::Led(LedCommandKind::Rainbow) => (
                    self,
                    Some(query("Rainbow"@, Wanted::Rainbow)),
                ),
                CommandKind::Led(_) => (
                    self.error("Full strip uploads are not supported yet."@),
                    None,
                ),
            }
        }
    }

    /// The fields after the key that edits a duration.
    pub open spec fn duration_edited(self) -> AppModel {
        match commands::command_at(self.selected as int).duration {
            Some(DurationField::IdleInhibit) => AppModel {
                fade_out: self.fade_out.stopped(),
                idle_timeout: self.idle_timeout.toggled(),
                ..self
            },
            Some(DurationField::FadeOut) => AppModel {
                fade_out: self.fade_out.toggled(),
                idle_timeout: self.idle_timeout.stopped(),
                ..self
            },
            None => self,
        }
    }

    /// What a key does that no field takes.
    pub open spec fn command_key(self, key: Key) -> (AppModel, Option<RequestModel>) {
        match key.code {
            KeyCode::Esc => (self.quit(), None),
            KeyCode::Up => (self.moved(-1), None),
            KeyCode::Down => (self.moved(1), None),
            KeyCode::PageUp => (self.moved(-3), None),
            KeyCode::PageDown => (self.moved(3), None),
            KeyCode::Home => (AppModel { selected: 0, ..self }, None),
            KeyCode::End => (AppModel { selected: (COMMAND_COUNT - 1) as nat, ..self }, None),
            KeyCode::Enter => self.send(),
            KeyCode::Char(c) => if c == 'q' {
                (self.quit(), None)
            } else if key.control && (c == 'c' || c == 'C') {
                (self.quit(), None)
            } else if c == 'm' {
                (self, self.manual_key())
            } else if c == 'i' {
                (self, self.idle_key())
            } else if c == 'e' {
                if commands::command_at(self.selected as int).takes_color() {
                    (AppModel { color: self.color.toggled(), ..self }, None)
                } else {
                    (self, None)
                }
            } else if c == 't' {
                (self.duration_edited(), None)
            } else {
                (self, None)
            },
            _ => (self, None),
        }
    }

    /// What a key does: a field that is being edited takes it, or it is a command.
    pub open spec fn key(self, key: Key) -> (AppModel, Option<RequestModel>) {
        let (color, taken) = self.color.color_key(key.code);
        if taken {
            (AppModel { color, ..self }, None)
        } else if self.idle_timeout.editing || self.fade_out.editing {
            (
                AppModel {
                    idle_timeout: self.idle_timeout.duration_key(key.code).0,
                    fade_out: self.fade_out.duration_key(key.code).0,
                    ..self
                },
                None,
            )
        } else {
            self.command_key(key)
        }
    }

    /// A request could not be sent.
    pub open spec fn refused(self, request: RequestModel, reason: Seq<char>) -> AppModel {
        self.error(request.context + reason)
    }

    /// A request was sent under this identifier.
    pub open spec fn confirmed(self, request: RequestModel, id: u128) -> AppModel {
        let sent = (AppModel { pending: self.pending.insert(id, request.label), ..self }).logged(
            "sent "@ + request.label + " ("@ + ids::uuid_text(id) + ")"@,
        );
        match request.goal {
            Goal::Nothing => sent,
            Goal::Manual(enabled) => AppModel {
                manual_state: if enabled {
                    ManualModeState::PendingEnable
                } else {
                    ManualModeState::PendingDisable
                },
                ..sent
            },
            Goal::IdleInhibit(enabled) => AppModel {
                idle_inhibit_state: if enabled {
                    IdleInhibitState::PendingEnable
                } else {
                    IdleInhibitState::PendingDisable
                },
                ..sent
            },
        }
    }

    /// A message came from the daemon.
    pub open spec fn received(self, id: u128, data: ClientDataModel) -> AppModel {
        match data {
            ClientDataModel::Ack => if self.pending.contains_key(id) {
                (AppModel { pending: self.pending.remove(id), ..self }).logged(
                    "ack: "@ + self.pending[id] + " ("@ + ids::uuid_text(id) + ")"@,
                )
            } else {
                self.logged("ack: "@ + ids::uuid_text(id))
            },
            ClientDataModel::Nack { reason } => if self.pending.contains_key(id) {
                (AppModel { pending: self.pending.remove(id), ..self }).error(
                    "nack for "@ + self.pending[id] + ": "@ + reason,
                )
            } else {
                self.error("nack "@ + ids::uuid_text(id) + ": "@ + reason)
            },
            ClientDataModel::ManualMode { enabled } => (AppModel {
                manual_state: if enabled {
                    ManualModeState::Enabled
                } else {
                    ManualModeState::Disabled
                },
                ..self
            }).logged("daemon reports manual mode "@ + enabled_text(enabled)),
            ClientDataModel::IdleInhibit { enabled, timeout_ms } => (AppModel {
                idle_inhibit_state: if enabled {
                    IdleInhibitState::Enabled
                } else {
                    IdleInhibitState::Disabled
                },
                ..self
            }).logged(
                "daemon reports idle inhibit "@ + enabled_text(enabled) + (match timeout_ms {
                    Some(ms) => " (timeout: "@ + text::decimal(ms as nat) + " ms)"@,
                    None => Seq::empty(),
                }),
            ),
            ClientDataModel::KinectStatus(status) => self.logged(
                "kinect status · "@ + kinect_line(status),
            ),
            ClientDataModel::CecStatus(_) => self,
            ClientDataModel::CecError { .. } => self,
        }
    }

    /// What is asked on the way out so that the daemon gets control back, unless it is
    /// known to have it.
    pub open spec fn release_manual(self) -> Option<RequestModel> {
        match self.manual_state {
            ManualModeState::Unknown | ManualModeState::Disabled => None,
            _ => Some(
                RequestModel {
                    context: "failed to disable manual mode: "@,
                    ..manual_request(false)
                },
            ),
        }
    }

    /// What is asked on the way out so that the LEDs go off again, unless they are known
    /// to.
    pub open spec fn release_idle(self) -> Option<RequestModel> {
        match self.idle_inhibit_state {
            IdleInhibitState::Unknown | IdleInhibitState::Disabled => None,
            _ => Some(
                RequestModel {
                    context: "failed to disable idle inhibit: "@,
                    ..idle_request(false, None)
                },
            ),
        }
    }
}

/// The console.
#[derive(Debug)]
pub struct App {
    running: bool,
    connected: bool,
    manual_state: ManualModeState,
    idle_inhibit_state: IdleInhibitState,
    selected_command: usize,
    color_input: ColorInput,
    idle_timeout_input: DurationInput,
    fade_out_duration_input: DurationInput,
    logs: VecDeque<String>,
    pending: HashMap<MessageId, String>,
}

/// The characters of texts.
pub open spec fn texts(logs: Seq<String>) -> Seq<Seq<char>> {
    Seq::new(logs.len(), |i: int| logs[i]@)
}

impl View for App {
    type V = AppModel;

    closed spec fn view(&self) -> AppModel {
        AppModel {
            running: self.running,
            connected: self.connected,
            manual_state: self.manual_state,
            idle_inhibit_state: self.idle_inhibit_state,
            selected: self.selected_command as nat,
            color: self.color_input@,
            idle_timeout: self.idle_timeout_input@,
            fade_out: self.fade_out_duration_input@,
            logs: texts(self.logs@),
            pending: self.pending@.map_values(|label: String| label@),
        }
    }
}

fn manual_mode(enabled: bool, context: &'static str) -> (request: Request)
    ensures
        request@ == (RequestModel { context: context@, ..manual_request(enabled) }),
{
    Request {
        label: if enabled {
            "Enable manual mode"
        } else {
            "Disable manual mode"
        },
        data: MessageToServerData::SetManualMode { enabled },
        goal: Goal::Manual(enabled),
        context,
    }
}

fn idle_inhibit(enabled: bool, timeout_ms: Option<u64>, context: &'static str) -> (request: Request)
    ensures
        request@ == (RequestModel { context: context@, ..idle_request(enabled, timeout_ms) }),
{
    Request {
        label: if enabled {
            "Enable idle inhibit"
        } else {
            "Disable idle inhibit"
        },
        data: MessageToServerData::SetIdleInhibit { enabled, timeout_ms },
        goal: Goal::IdleInhibit(enabled),
        context,
    }
}

fn plain(label: &'static str, data: MessageToServerData) -> (request: Request)
    ensures
        request@ == query(label@, wanted(data)),
        request.data == data,
{
    Request { label, data, goal: Goal::Nothing, context: "" }
}

fn push_on_off(line: &mut String, on: bool)
    ensures
        final(line)@ == old(line)@ + on_off(on),
{
    if on {
        line.append("on");
    } else {
        line.append("off");
    }
}

fn push_enabled(line: &mut String, enabled: bool)
    ensures
        final(line)@ == old(line)@ + enabled_text(enabled),
{
    if enabled {
        line.append("enabled");
    } else {
        line.append("disabled");
    }
}

/// A sensor's status in one line.
pub fn format_kinect_status(status: &KinectStatus) -> (line: String)
    ensures
        line@ == kinect_line(status@),
{
    let mut line = if status.connected {
        String::from_str("connected")
    } else {
        String::from_str("disconnected")
    };
    let ghost connected = line@;
    if let Some(serial) = &status.device_serial {
        line.append(" · serial=");
        line.append(serial.as_str());
        assert(line@ =~= connected + (" · serial="@ + serial@));
    } else {
        assert(line@ =~= connected + Seq::<char>::empty());
    }
    let ghost known = line@;
    if let Some(version) = &status.firmware_version {
        line.append(" · fw=");
        line.append(version.as_str());
        assert(line@ =~= known + (" · fw="@ + version@));
    } else {
        assert(line@ =~= known + Seq::<char>::empty());
    }
    line.append(" · depth=");
    push_on_off(&mut line, status.depth_active);
    line.append(" · rgb=");
    push_on_off(&mut line, status.rgb_active);
    line.append(" · status=");
    line.append(status.status.as_str());
    line
}

impl App {
    pub closed spec fn wf(&self) -> bool {
        &&& self.selected_command < COMMAND_COUNT
        &&& self.color_input@.is_color()
        &&& self.idle_timeout_input@.is_duration()
        &&& self.fade_out_duration_input@.is_duration()
        &&& self.logs@.len() <= LOG_CAPACITY
        &&& self.idle_timeout_input.name() == "Idle inhibit timeout"@
        &&& self.fade_out_duration_input.name() == "Fade out duration"@
    }

    /// A console that is connected to the daemon.
    pub fn new() -> (app: Self)
        ensures
            app.wf(),
            app@ == (AppModel {
                running: false,
                connected: true,
                manual_state: ManualModeState::Unknown,
                idle_inhibit_state: IdleInhibitState::Unknown,
                selected: 0,
                color: InputModel { buffer: "FF8800"@, editing: false },
                idle_timeout: InputModel { buffer: Seq::empty(), editing: false },
                fade_out: InputModel { buffer: text::decimal(3_000), editing: false },
                logs: Seq::empty(),
                pending: Map::empty(),
            }),
    {
        broadcast use vstd::std_specs::hash::group_hash_axioms;

        let app = App {
            running: false,
            connected: true,
            manual_state: ManualModeState::Unknown,
            idle_inhibit_state: IdleInhibitState::Unknown,
            selected_command: 0,
            color_input: ColorInput::new(),
            idle_timeout_input: DurationInput::new("Idle inhibit timeout", None),
            fade_out_duration_input: DurationInput::new(
                "Fade out duration",
                Some(DEFAULT_FADE_OUT_DURATION_MS),
            ),
            logs: VecDeque::new(),
            pending: HashMap::new(),
        };
        assert(app@.logs =~= Seq::empty());
        assert(app@.pending =~= Map::empty());
        app
    }

    /// The console is being shown from now on.
    pub fn start(&mut self)
        requires
            old(self).wf(),
        ensures
            final(self).wf(),
            final(self)@ == (AppModel { running: true, ..old(self)@ }),
    {
        self.running = true;
    }

    pub fn is_running(&self) -> (running: bool)
        ensures
            running == self@.running,
    {
        self.running
    }

    fn push_log(&mut self, message: String)
        requires
            old(self).wf(),
        ensures
            final(self).wf(),
            final(self)@ == old(self)@.logged(message@),
    {
        if self.logs.len() == LOG_CAPACITY {
            let _ = self.logs.pop_front();
        }
        self.logs.push_back(message);
        assert(self@.logs =~= old(self)@.logged(message@).logs);
    }

    fn push_error(&mut self, message: &str)
        requires
            old(self).wf(),
        ensures
            final(self).wf(),
            final(self)@ == old(self)@.error(message@),
    {
        self.push_log(text::joined("error: ", message));
    }

    /// The selected command.
    pub fn selected_descriptor(&self) -> (descriptor: CommandDescriptor)
        requires
            self.wf(),
        ensures
            descriptor@ == commands::command_at(self@.selected as int),
    {
        command(self.selected_command)
    }

    fn move_selection(&mut self, delta: isize)
        requires
            old(self).wf(),
            -100 <= delta <= 100,
        ensures
            final(self).wf(),
            final(self)@ == old(self)@.moved(delta as int),
    {
        let len: isize = COMMAND_COUNT as isize;
        let mut idx: isize = self.selected_command as isize + delta;
        if idx < 0 {
            idx = 0;
        } else if idx >= len {
            idx = len - 1;
        }
        self.selected_command = idx as usize;
    }

    fn handle_duration_input_key(&mut self, key: Key) -> (handled: bool)
        requires
            old(self).wf(),
        ensures
            final(self).wf(),
            final(self)@ == (AppModel {
                idle_timeout: old(self)@.idle_timeout.duration_key(key.code).0,
                fade_out: old(self)@.fade_out.duration_key(key.code).0,
                ..old(self)@
            }),
            handled == (old(self)@.idle_timeout.editing || old(self)@.fade_out.editing),
    {
        let mut handled = false;
        if self.idle_timeout_input.is_editing() {
            handled = self.idle_timeout_input.handle_key(key);
        }
        if self.fade_out_duration_input.is_editing() {
            handled = self.fade_out_duration_input.handle_key(key) || handled;
        }
        handled
    }

    /// Takes a key. What is to be asked of the daemon comes out.
    pub fn on_key_event(&mut self, key: Key) -> (request: Option<Request>)
        requires
            old(self).wf(),
        ensures
            final(self).wf(),
            (final(self)@, request_model(request)) == old(self)@.key(key),
    {
        if self.color_input.handle_key(key) {
            return None;
        }
        assert(self@ =~= old(self)@);
        if self.handle_duration_input_key(key) {
            return None;
        }
        assert(self@ =~= old(self)@);
        match key.code {
            KeyCode::Esc => {
                self.running = false;
                None
            },
            KeyCode::Up => {
                self.move_selection(-1);
                None
            },
            KeyCode::Down => {
                self.move_selection(1);
                None
            },
            KeyCode::PageUp => {
                self.move_selection(-3);
                None
            },
            KeyCode::PageDown => {
                self.move_selection(3);
                None
            },
            KeyCode::Home => {
                self.selected_command = 0;
                None
            },
            KeyCode::End => {
                self.selected_command = COMMAND_COUNT - 1;
                None
            },
            KeyCode::Enter => self.send_selected_command(),
            KeyCode::Char(c) => {
                if c == 'q' || (key.control && (c == 'c' || c == 'C')) {
                    self.running = false;
                    None
                } else {
                    self.on_char(c)
                }
            },
            _ => None,
        }
    }

    fn on_char(&mut self, c: char) -> (request: Option<Request>)
        requires
            old(self).wf(),
            c != 'q',
        ensures
            final(self).wf(),
            (final(self)@, request_model(request)) == old(self)@.command_key(
                (Key { code: KeyCode::Char(c), control: false }),
            ),
    {
        if c == 'm' {
            match self.manual_state {
                ManualModeState::PendingEnable | ManualModeState::PendingDisable => None,
                ManualModeState::Disabled => Some(manual_mode(true, "")),
                _ => Some(manual_mode(false, "")),
            }
        } else if c == 'i' {
            match self.idle_inhibit_state {
                IdleInhibitState::PendingEnable | IdleInhibitState::PendingDisable => None,
                IdleInhibitState::Enabled => Some(idle_inhibit(false, None, "")),
                _ => Some(idle_inhibit(true, self.idle_timeout_input.value(), "")),
            }
        } else if c == 'e' {
            if self.selected_descriptor().needs_color() {
                self.color_input.toggle_editing();
            }
            None
        } else if c == 't' {
            match self.selected_descriptor().duration_field() {
                Some(DurationField::IdleInhibit) => {
                    self.fade_out_duration_input.stop_editing();
                    self.idle_timeout_input.toggle_editing();
                },
                Some(DurationField::FadeOut) => {
                    self.idle_timeout_input.stop_editing();
                    self.fade_out_duration_input.toggle_editing();
                },
                None => {},
            }
            None
        } else {
            None
        }
    }

    fn send_selected_command(&mut self) -> (request: Option<Request>)
        requires
            old(self).wf(),
        ensures
            final(self).wf(),
            (final(self)@, request_model(request)) == old(self)@.send(),
    {
        let descriptor = self.selected_descriptor();
        if !descriptor.supported {
            self.push_error("That command is not supported in this UI yet.");
            return None;
        }
        match descriptor.kind {
            CommandKind::GetManualMode => Some(
                plain("Get manual mode", MessageToServerData::GetManualMode),
            ),
            CommandKind::Manual(enabled) => Some(manual_mode(enabled, "")),
            CommandKind::GetIdleInhibit => Some(
                plain("Get idle inhibit", MessageToServerData::GetIdleInhibit),
            ),
            CommandKind::IdleInhibit(enabled) => {
                let timeout: Option<u64> = if enabled {
                    self.idle_timeout_input.value()
                } else {
                    None
                };
                Some(idle_inhibit(enabled, timeout, ""))
            },
            CommandKind::Kinect(KinectCommandKind::RequestStatus) => Some(
                plain(
                    "Get Kinect status",
                    MessageToServerData::Kinect(KinectCommand::RequestStatus),
                ),
            ),
            CommandKind::Led(LedCommandKind::SetStaticColor) => match self.color_input.color() {
                Some(color) => Some(
                    plain(
                        "Set static color",
                        MessageToServerData::Led(LedCommand::SetStaticColor(color)),
                    ),
                ),
                None => {
                    self.push_error("Provide a full #RRGGBB color before sending.");
                    None
                },
            },
            CommandKind::Led(LedCommandKind::Breathing) => match self.color_input.color() {
                Some(color) => Some(
                    plain(
                        "Breathing effect",
                        MessageToServerData::Led(LedCommand::Breathing(color)),
                    ),
                ),
                None => {
                    self.push_error("Provide a full #RRGGBB color before sending.");
                    None
                },
            },
            CommandKind::Led(LedCommandKind::FadeOut) => {
                let duration_ms: Option<u64> = self.fade_out_duration_input.value();
                Some(
                    plain("Fade out", MessageToServerData::Led(LedCommand::FadeOut { duration_ms })),
                )
            },
            CommandKind::Led(LedCommandKind::Rainbow) => Some(
                plain("Rainbow", MessageToServerData::Led(LedCommand::Rainbow)),
            ),
            CommandKind::Led(_) => {
                self.push_error("Full strip uploads are not supported yet.");
                None
            },
        }
    }

    /// Makes the message for a request, under a fresh identifier. Without a connection
    /// there is nobody to send it to.
    pub fn try_send(&mut self, request: &Request) -> (message: Option<MessageToServer>)
        requires
            old(self).wf(),
        ensures
            final(self).wf(),
            match message {
                Some(message) => {
                    &&& old(self)@.connected
                    &&& message.data == request.data
                    &&& ids::is_random_uuid(message.id)
                    &&& final(self)@ == old(self)@
                },
                None => {
                    &&& !old(self)@.connected
                    &&& final(self)@ == old(self)@.refused(request@, "client disconnected"@)
                },
            },
    {
        if self.connected {
            Some(prepare(request.data))
        } else {
            let reason = text::joined(request.context, "client disconnected");
            self.push_error(reason.as_str());
            None
        }
    }

    /// The request was sent under this identifier.
    pub fn sent(&mut self, request: &Request, id: MessageId)
        requires
            old(self).wf(),
        ensures
            final(self).wf(),
            final(self)@ == old(self)@.confirmed(request@, id),
    {
        broadcast use vstd::std_specs::hash::group_hash_axioms;

        let _ = self.pending.insert(id, String::from_str(request.label));
        assert(self@.pending =~= old(self)@.pending.insert(id, request.label@));
        let mut line = text::joined("sent ", request.label);
        line.append(" (");
        line.append(id_text(id).as_str());
        line.append(")");
        self.push_log(line);
        match request.goal {
            Goal::Nothing => {},
            Goal::Manual(true) => {
                self.manual_state = ManualModeState::PendingEnable;
            },
            Goal::Manual(false) => {
                self.manual_state = ManualModeState::PendingDisable;
            },
            Goal::IdleInhibit(true) => {
                self.idle_inhibit_state = IdleInhibitState::PendingEnable;
            },
            Goal::IdleInhibit(false) => {
                self.idle_inhibit_state = IdleInhibitState::PendingDisable;
            },
        }
    }

    /// The request could not be sent, for the cause that is given.
    pub fn send_failed(&mut self, request: &Request, cause: &str)
        requires
            old(self).wf(),
        ensures
            final(self).wf(),
            final(self)@ == old(self)@.refused(
                request@,
                "failed to send "@ + request.label@ + ": "@ + cause@,
            ),
    {
        let mut reason = text::joined("failed to send ", request.label);
        reason.append(": ");
        reason.append(cause);
        let message = text::joined(request.context, reason.as_str());
        self.push_error(message.as_str());
    }

    /// The daemon closed the connection.
    pub fn connection_closed(&mut self)
        requires
            old(self).wf(),
        ensures
            final(self).wf(),
            final(self)@ == old(self)@.error("Connection to daemon closed."@).quit(),
    {
        self.push_error("Connection to daemon closed.");
        self.running = false;
    }

    fn take_pending(&mut self, id: MessageId) -> (label: Option<String>)
        requires
            old(self).wf(),
        ensures
            final(self).wf(),
            final(self)@ == (AppModel { pending: old(self)@.pending.remove(id), ..old(self)@ }),
            match label {
                Some(label) => old(self)@.pending.contains_key(id) && label@
                    == old(self)@.pending[id],
                None => !old(self)@.pending.contains_key(id),
            },
    {
        broadcast use vstd::std_specs::hash::group_hash_axioms;

        let label = self.pending.remove(&id);
        assert(self@.pending =~= old(self)@.pending.remove(id));
        label
    }

    /// Takes a message from the daemon.
    pub fn handle_incoming_message(&mut self, msg: MessageToClient)
        requires
            old(self).wf(),
        ensures
            final(self).wf(),
            final(self)@ == old(self)@.received(msg.id, msg.data@),
    {
        match msg.data {
            MessageToClientData::Ack => {
                let pending = self.take_pending(msg.id);
                let mut line = String::from_str("ack: ");
                if let Some(label) = pending {
                    line.append(label.as_str());
                    line.append(" (");
                    line.append(id_text(msg.id).as_str());
                    line.append(")");
                } else {
                    assert(self@.pending =~= old(self)@.pending);
                    line.append(id_text(msg.id).as_str());
                }
                self.push_log(line);
            },
            MessageToClientData::Nack { reason } => {
                let pending = self.take_pending(msg.id);
                let mut line = String::new();
                if let Some(label) = pending {
                    line = text::joined("nack for ", label.as_str());
                } else {
                    assert(self@.pending =~= old(self)@.pending);
                    line = text::joined("nack ", id_text(msg.id).as_str());
                }
                line.append(": ");
                line.append(reason.as_str());
                self.push_error(line.as_str());
            },
            MessageToClientData::ManualMode { enabled } => {
                self.manual_state = if enabled {
                    ManualModeState::Enabled
                } else {
                    ManualModeState::Disabled
                };
                let mut line = String::from_str("daemon reports manual mode ");
                push_enabled(&mut line, enabled);
                self.push_log(line);
            },
            MessageToClientData::IdleInhibit { enabled, timeout_ms } => {
                self.idle_inhibit_state = if enabled {
                    IdleInhibitState::Enabled
                } else {
                    IdleInhibitState::Disabled
                };
                let mut line = String::from_str("daemon reports idle inhibit ");
                push_enabled(&mut line, enabled);
                let ghost head = line@;
                if let Some(ms) = timeout_ms {
                    line.append(" (timeout: ");
                    text::push_decimal(&mut line, ms);
                    line.append(" ms)");
                    assert(line@ =~= head + (" (timeout: "@ + text::decimal(ms as nat)
                        + " ms)"@));
                } else {
                    assert(line@ =~= head + Seq::<char>::empty());
                }
                self.push_log(line);
            },
            MessageToClientData::Kinect(KinectEvent::Status(status)) => {
                let line = text::joined("kinect status · ", format_kinect_status(&status).as_str());
                self.push_log(line);
            },
            MessageToClientData::Cec(CecEvent::Status(_)) => {},
            MessageToClientData::Cec(CecEvent::Error { message: _ }) => {},
        }
    }

    pub fn manual_state(&self) -> (state: ManualModeState)
        ensures
            state == self@.manual_state,
    {
        self.manual_state
    }

    pub fn idle_inhibit_state(&self) -> (state: IdleInhibitState)
        ensures
            state == self@.idle_inhibit_state,
    {
        self.idle_inhibit_state
    }

    /// The place of the selected command.
    pub fn selected(&self) -> (place: usize)
        ensures
            place == self@.selected,
    {
        self.selected_command
    }

    /// How many requests are not answered.
    pub fn pending_count(&self) -> (count: usize)
        ensures
            count == self@.pending.dom().len(),
    {
        broadcast use vstd::std_specs::hash::group_hash_axioms;

        assert(self@.pending.dom() =~= self.pending@.dom());
        self.pending.len()
    }

    /// How many messages are in the log.
    pub fn log_count(&self) -> (count: usize)
        ensures
            count == self@.logs.len(),
    {
        self.logs.len()
    }

    /// A message of the log, the oldest at place zero.
    pub fn log(&self, place: usize) -> (message: &str)
        requires
            place < self@.logs.len(),
        ensures
            message@ == self@.logs[place as int],
    {
        self.logs[place].as_str()
    }

    /// The colour field as it is shown.
    pub fn color_text(&self) -> (text: String)
        ensures
            text@ == self@.color.color_text(),
    {
        self.color_input.formatted()
    }

    /// Whether the colour has all its digits.
    pub fn color_is_complete(&self) -> (complete: bool)
        ensures
            complete == (self@.color.buffer.len() == 6),
    {
        self.color_input.is_complete()
    }

    pub fn is_editing_color(&self) -> (editing: bool)
        ensures
            editing == self@.color.editing,
    {
        self.color_input.is_editing()
    }

    fn duration_input(&self, field: DurationField) -> (input: &DurationInput)
        requires
            self.wf(),
        ensures
            input@ == self@.duration_field(field),
            input@.is_duration(),
            input.name() == (match field {
                DurationField::IdleInhibit => "Idle inhibit timeout"@,
                DurationField::FadeOut => "Fade out duration"@,
            }),
    {
        match field {
            DurationField::IdleInhibit => &self.idle_timeout_input,
            DurationField::FadeOut => &self.fade_out_duration_input,
        }
    }

    /// What a duration field is called.
    pub fn duration_label(&self, field: DurationField) -> (label: &'static str)
        requires
            self.wf(),
        ensures
            label@ == (match field {
                DurationField::IdleInhibit => "Idle inhibit timeout"@,
                DurationField::FadeOut => "Fade out duration"@,
            }),
    {
        self.duration_input(field).label()
    }

    /// A duration field as it is shown.
    pub fn duration_text(&self, field: DurationField) -> (text: String)
        requires
            self.wf(),
        ensures
            text@ == self@.duration_field(field).duration_text(),
    {
        self.duration_input(field).formatted()
    }

    /// The duration in a field, unless the field is empty.
    pub fn duration(&self, field: DurationField) -> (duration: Option<u64>)
        requires
            self.wf(),
        ensures
            duration == self@.duration_field(field).duration(),
    {
        self.duration_input(field).value()
    }

    pub fn is_editing_duration(&self, field: DurationField) -> (editing: bool)
        requires
            self.wf(),
        ensures
            editing == self@.duration_field(field).editing,
    {
        self.duration_input(field).is_editing()
    }

    /// What is to be asked first on the way out.
    pub fn shutdown_manual(&self) -> (request: Option<Request>)
        requires
            self.wf(),
        ensures
            request_model(request) == self@.release_manual(),
    {
        match self.manual_state {
            ManualModeState::Unknown | ManualModeState::Disabled => None,
            _ => Some(manual_mode(false, "failed to disable manual mode: ")),
        }
    }

    /// What is to be asked next on the way out.
    pub fn shutdown_idle(&self) -> (request: Option<Request>)
        requires
            self.wf(),
        ensures
            request_model(request) == self@.release_idle(),
    {
        match self.idle_inhibit_state {
            IdleInhibitState::Unknown | IdleInhibitState::Disabled => None,
            _ => Some(idle_inhibit(false, None, "failed to disable idle inhibit: ")),
        }
    }

    /// The connection is given up; whether there was one.
    pub fn disconnect(&mut self) -> (connected: bool)
        requires
            old(self).wf(),
        ensures
            final(self).wf(),
            final(self)@ == (AppModel { connected: false, ..old(self)@ }),
            connected == old(self)@.connected,
    {
        let connected = self.connected;
        self.connected = false;
        connected
    }
}

/// The log ends with the newest message and stays within its bounds.
pub proof fn log_stays_bounded(app: AppModel, message: Seq<char>)
    requires
        app.logs.len() <= LOG_CAPACITY,
    ensures
        app.logged(message).logs.len() <= LOG_CAPACITY,
        app.logged(message).logs.last() == message,
        app.logs.len() < LOG_CAPACITY ==> app.logged(message).logs.drop_last() == app.logs,
{
    if app.logs.len() < LOG_CAPACITY {
        assert(app.logged(message).logs.drop_last() =~= app.logs);
    }
}

/// No key leaves the list of commands.
pub proof fn selection_stays_in_list(app: AppModel, key: Key)
    requires
        app.selected < COMMAND_COUNT,
    ensures
        app.key(key).0.selected < COMMAND_COUNT,
{
}

/// While a duration is being typed, no key sends anything or leaves the console.
pub proof fn typing_is_not_interrupted(app: AppModel, key: Key)
    requires
        app.idle_timeout.editing || app.fade_out.editing,
    ensures
        app.key(key).1 is None,
        app.key(key).0.running == app.running,
{
}

/// At most one duration is being typed at a time.
pub proof fn one_duration_at_a_time(app: AppModel, key: Key)
    requires
        !(app.idle_timeout.editing && app.fade_out.editing),
    ensures
        !(app.key(key).0.idle_timeout.editing && app.key(key).0.fade_out.editing),
{
}

/// Once control was asked for or given back, the key for it does nothing until the
/// daemon has answered.
pub proof fn manual_key_waits_for_answer(app: AppModel, enabled: bool, id: u128, answer: bool)
    ensures
        app.confirmed(manual_request(enabled), id).manual_key() is None,
        app.confirmed(manual_request(enabled), id).received(
            id,
            ClientDataModel::ManualMode { enabled: answer },
        ).manual_key() == Some(manual_request(!answer)),
{
}

/// A request that is acknowledged or rejected is settled: what is pending is what was
/// pending before it.
pub proof fn answered_request_is_settled(
    app: AppModel,
    request: RequestModel,
    id: u128,
    reason: Seq<char>,
)
    requires
        !app.pending.contains_key(id),
    ensures
        app.confirmed(request, id).received(id, ClientDataModel::Ack).pending == app.pending,
        app.confirmed(request, id).received(id, ClientDataModel::Nack { reason }).pending
            == app.pending,
{
    assert(app.pending.insert(id, request.label).remove(id) =~= app.pending);
}

/// A request that cannot be sent changes nothing but the log.
pub proof fn unsent_request_changes_log_only(
    app: AppModel,
    request: RequestModel,
    reason: Seq<char>,
)
    ensures
        app.refused(request, reason) == (AppModel {
            logs: app.refused(request, reason).logs,
            ..app
        }),
{
}

/// A console that has control asks to give it back on its way out, and asks no more once
/// the daemon has confirmed that.
pub proof fn control_is_given_back(app: AppModel, id: u128)
    requires
        app.manual_state == ManualModeState::Enabled,
    ensures
        app.release_manual() is Some,
        app.release_manual()->Some_0.wanted == Wanted::SetManualMode(false),
        app.confirmed(app.release_manual()->Some_0, id).received(
            id,
            ClientDataModel::ManualMode { enabled: false },
        ).release_manual() is None,
{
}

/// Whether a field takes the keys.
pub open spec fn is_typing(app: AppModel) -> bool {
    app.color.editing || app.idle_timeout.editing || app.fade_out.editing
}

/// A request carries what its field holds: the one that turns the idle inhibition on the
/// timeout, a fade-out its duration, a colour command the colour. Turning the inhibition
/// off carries no time.
pub proof fn requests_carry_what_was_typed(app: AppModel, key: Key)
    requires
        app.key(key).1 is Some,
    ensures
        match app.key(key).1->Some_0.wanted {
            Wanted::SetIdleInhibit { enabled, timeout_ms } => timeout_ms == (if enabled {
                app.idle_timeout.duration()
            } else {
                None
            }),
            Wanted::FadeOut(duration_ms) => duration_ms == app.fade_out.duration(),
            Wanted::StaticColor(color) => app.color.color() == Some(color),
            Wanted::Breathing(color) => app.color.color() == Some(color),
            Wanted::Frame => false,
            _ => true,
        },
{
}

/// A request that switches something says so, so that the console waits for the answer; no
/// other request does.
pub proof fn requests_name_their_goal(app: AppModel, key: Key)
    requires
        app.key(key).1 is Some,
    ensures
        app.key(key).1->Some_0.goal == (match app.key(key).1->Some_0.wanted {
            Wanted::SetManualMode(enabled) => Goal::Manual(enabled),
            Wanted::SetIdleInhibit { enabled, timeout_ms } => Goal::IdleInhibit(enabled),
            _ => Goal::Nothing,
        }),
{
}

/// Only three keys ask for anything, none of them while a duration is being typed; and
/// asking changes nothing by itself.
pub proof fn few_keys_ask(app: AppModel, key: Key)
    requires
        app.key(key).1 is Some,
    ensures
        key.code == KeyCode::Enter || key.code == KeyCode::Char('m') || key.code == KeyCode::Char(
            'i',
        ),
        !is_typing(app),
        app.key(key).0 == app,
{
}

/// A key and the command of the list that stands for the same ask for the same: taking
/// control or giving it back, and inhibiting the idling or letting it be.
pub proof fn keys_ask_like_the_list(app: AppModel, control: bool)
    requires
        !is_typing(app),
    ensures
        ({
            let listed = app.key(Key { code: KeyCode::Enter, control }).1;
            let manual = app.key(Key { code: KeyCode::Char('m'), control }).1;
            let idle = app.key(Key { code: KeyCode::Char('i'), control }).1;
            let kind = commands::command_at(app.selected as int).kind;
            &&& app.manual_state == ManualModeState::Disabled && kind == CommandKind::Manual(true)
                ==> manual == listed && manual is Some && manual->Some_0.wanted
                == Wanted::SetManualMode(true)
            &&& (app.manual_state == ManualModeState::Enabled || app.manual_state
                == ManualModeState::Unknown) && kind == CommandKind::Manual(false) ==> manual
                == listed && manual is Some && manual->Some_0.wanted == Wanted::SetManualMode(false)
            &&& (app.idle_inhibit_state == IdleInhibitState::Disabled || app.idle_inhibit_state
                == IdleInhibitState::Unknown) && kind == CommandKind::IdleInhibit(true) ==> idle
                == listed && idle is Some && idle->Some_0.wanted == (Wanted::SetIdleInhibit {
                enabled: true,
                timeout_ms: app.idle_timeout.duration(),
            })
            &&& app.idle_inhibit_state == IdleInhibitState::Enabled && kind
                == CommandKind::IdleInhibit(false) ==> idle == listed && idle is Some
                && idle->Some_0.wanted == (Wanted::SetIdleInhibit {
                enabled: false,
                timeout_ms: None,
            })
        }),
{
}

/// What the list sends is what the selected command is, under the name it has in the list.
/// Nothing is sent for a command that needs a colour while the colour is not complete, nor
/// for one that is not supported; then a message says so.
pub proof fn list_sends_selected_command(app: AppModel, control: bool)
    requires
        !is_typing(app),
        app.selected < COMMAND_COUNT,
        app.logs.len() <= LOG_CAPACITY,
    ensures
        ({
            let selected = commands::command_at(app.selected as int);
            let (after, request) = app.key(Key { code: KeyCode::Enter, control });
            &&& request is None <==> !selected.supported || (selected.takes_color()
                && app.color.buffer.len() != 6)
            &&& request is None ==> after.logs.len() > 0 && after.logs.last() == "error: "@ + (
            if selected.supported {
                "Provide a full #RRGGBB color before sending."@
            } else {
                "That command is not supported in this UI yet."@
            })
            &&& request is None ==> after == (AppModel { logs: after.logs, ..app })
            &&& request is Some ==> request->Some_0.label == selected.label
                && request->Some_0.wanted == (match selected.kind {
                CommandKind::GetManualMode => Wanted::GetManualMode,
                CommandKind::Manual(enabled) => Wanted::SetManualMode(enabled),
                CommandKind::GetIdleInhibit => Wanted::GetIdleInhibit,
                CommandKind::IdleInhibit(enabled) => Wanted::SetIdleInhibit {
                    enabled,
                    timeout_ms: if enabled {
                        app.idle_timeout.duration()
                    } else {
                        None
                    },
                },
                CommandKind::Kinect(_) => Wanted::KinectStatus,
                CommandKind::Led(LedCommandKind::SetStaticColor) => Wanted::StaticColor(
                    app.color.color()->Some_0,
                ),
                CommandKind::Led(LedCommandKind::Breathing) => Wanted::Breathing(
                    app.color.color()->Some_0,
                ),
                CommandKind::Led(LedCommandKind::FadeOut) => Wanted::FadeOut(
                    app.fade_out.duration(),
                ),
                CommandKind::Led(LedCommandKind::Rainbow) => Wanted::Rainbow,
                CommandKind::Led(_) => Wanted::Frame,
            })
        }),
{
}

/// The console is left by Esc, `q` and Ctrl-C, unless a field takes the key, and by no
/// other key.
pub proof fn console_is_left_on_purpose(app: AppModel, key: Key)
    ensures
        app.key(key).0.running == (app.running && (is_typing(app) || !(key.code == KeyCode::Esc
            || key.code == KeyCode::Char('q') || (key.control && (key.code == KeyCode::Char('c')
            || key.code == KeyCode::Char('C')))))),
{
}

/// Going down the list and up again leads back, except at its ends, where it stays.
pub proof fn list_is_walked_both_ways(app: AppModel, control: bool)
    requires
        !is_typing(app),
        app.selected < COMMAND_COUNT,
    ensures
        ({
            let (up, down) = (
                Key { code: KeyCode::Up, control },
                Key { code: KeyCode::Down, control },
            );
            let (page_up, page_down) = (
                Key { code: KeyCode::PageUp, control },
                Key { code: KeyCode::PageDown, control },
            );
            &&& app.selected + 1 < COMMAND_COUNT ==> app.key(down).0.selected == app.selected + 1
                && app.key(down).0.key(up).0 == app
            &&& app.selected + 1 == COMMAND_COUNT ==> app.key(down).0 == app
            &&& app.selected == 0 ==> app.key(up).0 == app
            &&& app.selected + 3 < COMMAND_COUNT ==> app.key(page_down).0.selected == app.selected
                + 3 && app.key(page_down).0.key(page_up).0 == app
            &&& app.key(page_down).0 == app.key(down).0.key(down).0.key(down).0
            &&& app.key(page_up).0 == app.key(up).0.key(up).0.key(up).0
            &&& app.key(Key { code: KeyCode::Home, control }).0.selected == 0
            &&& app.key(Key { code: KeyCode::End, control }).0.selected + 1 == COMMAND_COUNT
        }),
{
}

/// A field that is typed into is left by Enter or Esc with what was typed, without
/// anything being asked and without leaving the console.
pub proof fn typing_ends_with_what_was_typed(app: AppModel, key: Key)
    requires
        is_typing(app),
        key.code == KeyCode::Enter || key.code == KeyCode::Esc,
    ensures
        app.key(key).1 is None,
        app.key(key).0.running == app.running,
        app.key(key).0.color.buffer == app.color.buffer,
        app.key(key).0.idle_timeout.buffer == app.idle_timeout.buffer,
        app.key(key).0.fade_out.buffer == app.fade_out.buffer,
        app.key(key).0.selected == app.selected,
        app.color.editing ==> !app.key(key).0.color.editing,
        !app.color.editing ==> !is_typing(app.key(key).0),
{
}

/// The key for a duration opens the field of the selected command and closes the other
/// one; the key for a colour opens the colour field of a command that needs one. Neither
/// changes what the fields hold.
pub proof fn fields_open_for_their_command(app: AppModel, control: bool)
    requires
        !is_typing(app),
    ensures
        ({
            let selected = commands::command_at(app.selected as int);
            let timed = app.key(Key { code: KeyCode::Char('t'), control }).0;
            let colored = app.key(Key { code: KeyCode::Char('e'), control }).0;
            &&& timed.idle_timeout.editing <==> selected.kind == CommandKind::IdleInhibit(true)
            &&& timed.fade_out.editing <==> selected.kind == CommandKind::Led(
                LedCommandKind::FadeOut,
            )
            &&& !timed.color.editing
            &&& colored.color.editing <==> selected.kind == CommandKind::Led(
                LedCommandKind::SetStaticColor,
            ) || selected.kind == CommandKind::Led(LedCommandKind::Breathing)
            &&& !colored.idle_timeout.editing && !colored.fade_out.editing
            &&& timed.idle_timeout.buffer == app.idle_timeout.buffer
            &&& timed.fade_out.buffer == app.fade_out.buffer
            &&& colored.color.buffer == app.color.buffer
        }),
{
}

/// Once the inhibition was asked for or lifted, the key for it does nothing until the
/// daemon has answered; then it asks for the opposite of what the daemon said.
pub proof fn idle_key_waits_for_answer(
    app: AppModel,
    request: RequestModel,
    id: u128,
    answer: bool,
    timeout_ms: Option<u64>,
)
    requires
        request.goal is IdleInhibit,
    ensures
        app.confirmed(request, id).idle_key() is None,
        ({
            let answered = app.confirmed(request, id).received(
                id,
                ClientDataModel::IdleInhibit { enabled: answer, timeout_ms },
            );
            &&& answered.idle_key() is Some
            &&& answered.idle_key()->Some_0.wanted == (Wanted::SetIdleInhibit {
                enabled: !answer,
                timeout_ms: if answer {
                    None
                } else {
                    app.idle_timeout.duration()
                },
            })
        }),
{
}

/// A console that inhibits the idling asks to lift that on its way out, also while the
/// answer is due, and asks no more once the daemon has confirmed it.
pub proof fn inhibition_is_lifted_on_leaving(app: AppModel, id: u128)
    requires
        app.idle_inhibit_state != IdleInhibitState::Unknown,
        app.idle_inhibit_state != IdleInhibitState::Disabled,
    ensures
        app.release_idle() is Some,
        app.release_idle()->Some_0.wanted == (Wanted::SetIdleInhibit {
            enabled: false,
            timeout_ms: None,
        }),
        app.confirmed(app.release_idle()->Some_0, id).received(
            id,
            ClientDataModel::IdleInhibit { enabled: false, timeout_ms: None },
        ).release_idle() is None,
{
}

/// A console gives control back on its way out whenever it may have it, and asks nothing
/// where it is known not to or never learnt.
pub proof fn leaving_asks_only_what_is_needed(app: AppModel)
    ensures
        app.release_manual() is None <==> app.manual_state == ManualModeState::Unknown
            || app.manual_state == ManualModeState::Disabled,
        app.release_idle() is None <==> app.idle_inhibit_state == IdleInhibitState::Unknown
            || app.idle_inhibit_state == IdleInhibitState::Disabled,
        app.release_manual() is Some ==> app.release_manual()->Some_0.wanted
            == Wanted::SetManualMode(false),
{
}

/// What the daemon reports is what the console shows: a report of a mode sets that mode
/// and no other; an answer to a request sets none. Every message of the daemon but those
/// about the television leaves a line in the log.
pub proof fn reports_set_what_they_report(app: AppModel, id: u128, data: ClientDataModel)
    requires
        app.logs.len() <= LOG_CAPACITY,
    ensures
        app.received(id, data).manual_state == (match data {
            ClientDataModel::ManualMode { enabled } => if enabled {
                ManualModeState::Enabled
            } else {
                ManualModeState::Disabled
            },
            _ => app.manual_state,
        }),
        app.received(id, data).idle_inhibit_state == (match data {
            ClientDataModel::IdleInhibit { enabled, timeout_ms } => if enabled {
                IdleInhibitState::Enabled
            } else {
                IdleInhibitState::Disabled
            },
            _ => app.idle_inhibit_state,
        }),
        app.received(id, data).pending == (if data is Ack || data is Nack {
            app.pending.remove(id)
        } else {
            app.pending
        }),
        app.received(id, data).selected == app.selected,
        app.received(id, data).running == app.running,
        app.received(id, data).color == app.color,
        app.received(id, data).idle_timeout == app.idle_timeout,
        app.received(id, data).fade_out == app.fade_out,
        !(data is CecStatus) && !(data is CecError) ==> app.received(id, data).logs.len() == (
        if app.logs.len() == LOG_CAPACITY {
            LOG_CAPACITY as nat
        } else {
            app.logs.len() + 1
        }),
{
    assert(app.pending.contains_key(id) || app.pending.remove(id) =~= app.pending);
}

/// A request that was sent is pending under its name and its identifier, and the state that
/// it switches waits for the answer; no other state does.
pub proof fn sent_request_is_pending(app: AppModel, request: RequestModel, id: u128)
    ensures
        app.confirmed(request, id).pending == app.pending.insert(id, request.label),
        app.confirmed(request, id).logs.len() > 0,
        app.confirmed(request, id).manual_state == (match request.goal {
            Goal::Manual(enabled) => if enabled {
                ManualModeState::PendingEnable
            } else {
                ManualModeState::PendingDisable
            },
            _ => app.manual_state,
        }),
        app.confirmed(request, id).idle_inhibit_state == (match request.goal {
            Goal::IdleInhibit(enabled) => if enabled {
                IdleInhibitState::PendingEnable
            } else {
                IdleInhibitState::PendingDisable
            },
            _ => app.idle_inhibit_state,
        }),
        app.confirmed(request, id).running == app.running,
        app.confirmed(request, id).connected == app.connected,
        app.confirmed(request, id).selected == app.selected,
{
}

/// The log names the request that an answer is for, by what it was sent as, and a rejection
/// with its reason. A request that could not be sent is logged with the reason.
pub proof fn log_names_the_request(
    app: AppModel,
    request: RequestModel,
    id: u128,
    reason: Seq<char>,
)
    requires
        app.logs.len() <= LOG_CAPACITY,
    ensures
        app.confirmed(request, id).logs.last() == "sent "@ + request.label + " ("@
            + ids::uuid_text(id) + ")"@,
        app.confirmed(request, id).received(id, ClientDataModel::Ack).logs.last() == "ack: "@
            + request.label + " ("@ + ids::uuid_text(id) + ")"@,
        app.confirmed(request, id).received(id, ClientDataModel::Nack { reason }).logs.last()
            == "error: "@ + ("nack for "@ + request.label + ": "@ + reason),
        app.refused(request, reason).logs.last() == "error: "@ + (request.context + reason),
        !app.pending.contains_key(id) ==> app.received(id, ClientDataModel::Ack).logs.last()
            == "ack: "@ + ids::uuid_text(id),
        !app.pending.contains_key(id) ==> app.received(
            id,
            ClientDataModel::Nack { reason },
        ).logs.last() == "error: "@ + ("nack "@ + ids::uuid_text(id) + ": "@ + reason),
{
    assert(app.confirmed(request, id).pending.contains_key(id));
    assert(app.confirmed(request, id).pending[id] == request.label);
}

} // verus!
