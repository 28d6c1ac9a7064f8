//! The daemon's centre: reacts to the screen, the clients and the devices.

use vstd::prelude::*;

use crate::bridge::automation::{Automation, Control, FrameRequest, LedEvent};
use crate::bridge::frame::{FrameStage, Pipeline};
use crate::bridge::idle::IdleState;
use crate::bridge::kinect::{KinectHandler, KinectRequests};
use crate::bridge::messaging::{Message, Outgoing};
use crate::client::session::{DisconnectOutcome, Sessions};
use crate::client::{ClientAddr, ClientReq, ClientReqData};
use crate::daemoncomm::{
    ClientDataModel, KinectCommand, KinectEvent, KinectStatusModel, LedCommand, MessageToServer,
    MessageToServerData,
};
use crate::ids::MessageId;
use crate::wayland::idle::IdleEvent;

pub mod ambient;
pub mod automation;
pub mod cec_control;
pub mod colors;
pub mod frame;
pub mod idle;
pub mod kinect;
pub mod messaging;

verus! {

/// What the screen reports that concerns the handler.
#[derive(Debug, Clone, Copy, PartialEq, Eq, Structural)]
pub enum ScreenEvent {
    Idle(IdleEvent),
    FrameReady,
}

/// The daemon's event handler.
#[derive(Debug)]
pub struct Handler {
    pub automation: Automation,
    pub idle_state: IdleState,
    pub kinect: KinectHandler,
}

/// The model of [`Handler`].
#[verifier::ext_equal]
pub struct HandlerState {
    pub control: Control,
    pub idle: IdleState,
    pub kinect: KinectRequests,
}

impl HandlerState {
    /// What was to be sent has been taken.
    pub open spec fn taken(self) -> HandlerState {
        HandlerState { control: Control { sent: Seq::empty(), ..self.control }, ..self }
    }

    /// These messages are to be sent, too.
    pub open spec fn sending(self, messages: Seq<Message>) -> HandlerState {
        HandlerState { control: self.control.sending(messages), ..self }
    }

    /// The answer to a request about the idle inhibition.
    pub open spec fn inhibit_answered(
        self,
        addr: ClientAddr,
        id: MessageId,
        now: u64,
    ) -> HandlerState {
        self.sending(
            seq![
                messaging::reply(
                    addr,
                    id,
                    ClientDataModel::IdleInhibit {
                        enabled: self.idle.idle_inhibit,
                        timeout_ms: self.idle.remaining(now),
                    },
                ),
                messaging::ack(addr, id),
            ],
        )
    }

    /// After a client asked to inhibit idling or to let it be.
    pub open spec fn inhibit_requested(
        self,
        addr: ClientAddr,
        id: MessageId,
        enabled: bool,
        timeout_ms: Option<u64>,
        now: u64,
    ) -> HandlerState {
        HandlerState {
            idle: self.idle.inhibited(enabled, timeout_ms, now),
            ..self
        }.sending(self.idle.timer_messages(enabled, timeout_ms)).inhibit_answered(addr, id, now)
    }

    /// After a client asked for the camera's status.
    pub open spec fn kinect_requested(self, addr: ClientAddr, id: MessageId) -> HandlerState {
        match self.kinect.last_status {
            Some(status) => self.sending(
                seq![messaging::reply(addr, id, ClientDataModel::KinectStatus(status))],
            ),
            None => HandlerState {
                kinect: KinectRequests {
                    pending: self.kinect.pending.push((addr, id)),
                    ..self.kinect
                },
                ..self
            }.sending(
                seq![Message::Kinect { command: KinectCommand::RequestStatus, addr, id }],
            ),
        }
    }

    /// After a client's message, which the client registers itself with.
    pub open spec fn messaged(self, addr: ClientAddr, msg: MessageToServer, now: u64) -> HandlerState {
        let idle = self.idle.is_idle();
        match msg.data {
            MessageToServerData::Led(command) => HandlerState {
                control: self.control.led_requested(addr, msg.id, command),
                ..self
            },
            MessageToServerData::SetManualMode { enabled } => HandlerState {
                control: self.control.manual_requested(idle, addr, msg.id, enabled),
                ..self
            },
            MessageToServerData::GetManualMode => HandlerState {
                control: self.control.manual_queried(addr, msg.id),
                ..self
            },
            MessageToServerData::SetIdleInhibit { enabled, timeout_ms } => self.inhibit_requested(
                addr,
                msg.id,
                enabled,
                timeout_ms,
                now,
            ),
            MessageToServerData::GetIdleInhibit => self.inhibit_answered(addr, msg.id, now),
            MessageToServerData::Kinect(command) => self.kinect_requested(addr, msg.id),
        }
    }

    pub open spec fn registered(self, addr: ClientAddr) -> HandlerState {
        HandlerState {
            control: Control {
                sessions: self.control.sessions.registered(addr),
                ..self.control
            },
            ..self
        }
    }

    /// After whatever a client did.
    pub open spec fn requested(self, req: ClientReq, now: u64) -> HandlerState {
        match req.data {
            ClientReqData::Message(msg) => self.registered(req.addr).messaged(req.addr, msg, now),
            ClientReqData::Disconnected => HandlerState {
                control: self.control.disconnected(self.idle.is_idle(), req.addr),
                ..self
            },
        }
    }

    /// After the screen has a frame ready.
    pub open spec fn frame_ready(self) -> (HandlerState, Option<FrameRequest>) {
        let (control, request) = self.control.frame_asked(self.idle.is_idle());
        (HandlerState { control, ..self }, request)
    }

    /// After the seat became idle or active.
    pub open spec fn seat_changed(self, event: IdleEvent) -> HandlerState {
        HandlerState {
            idle: IdleState { seat_idle: event == IdleEvent::Idle, ..self.idle },
            ..self
        }
    }
}

impl View for Handler {
    type V = HandlerState;

    open spec fn view(&self) -> HandlerState {
        HandlerState { control: self.automation@, idle: self.idle_state, kinect: self.kinect@ }
    }
}

impl Handler {
    pub fn new() -> (handler: Self)
        ensures
            handler@.control.is_new(),
            handler@.control.wf(),
            handler@.idle == IdleState::initial(),
            handler@.idle.wf(),
            handler@.kinect == (KinectRequests { last_status: None, pending: Seq::empty() }),
    {
        Handler {
            automation: Automation::new(),
            idle_state: IdleState::new(),
            kinect: KinectHandler::new(),
        }
    }

    /// What has to be sent because of the events so far.
    pub fn take_messages(&mut self) -> (messages: Vec<Outgoing>)
        ensures
            messages@.map_values(|out: Outgoing| out@) == old(self)@.control.sent,
            final(self)@ == old(self)@.taken(),
    {
        self.automation.messenger.take()
    }

    /// Takes in what the screen reports: a frame to be computed, if there is one.
    pub fn handle_wayland_event(&mut self, event: ScreenEvent) -> (request: Option<FrameRequest>)
        ensures
            match event {
                ScreenEvent::Idle(seat) => request is None && final(self)@ == old(
                    self,
                )@.seat_changed(seat),
                ScreenEvent::FrameReady => {
                    &&& (final(self)@, request) == old(self)@.frame_ready()
                    &&& request is None ==> *final(self) == *old(self)
                },
            },
    {
        match event {
            ScreenEvent::Idle(IdleEvent::Idle) => {
                self.idle_state.seat_idle = true;
                self.sync_effective_idle();
                None
            },
            ScreenEvent::Idle(IdleEvent::Active) => {
                self.idle_state.seat_idle = false;
                self.sync_effective_idle();
                None
            },
            ScreenEvent::FrameReady => {
                let idle = self.idle_state.effective_idle();
                self.automation.dispatch_frame(idle)
            },
        }
    }

    /// How starting the computation of a frame went.
    pub fn frame_dispatched(&mut self, request: FrameRequest, accepted: bool, now: u64)
        ensures
            accepted ==> final(self)@ == (HandlerState {
                control: old(self)@.control.frame_started(request, now),
                ..old(self)@
            }),
            !accepted ==> *final(self) == *old(self),
    {
        self.automation.frame_dispatched(request, accepted, now);
    }

    pub fn handle_frame_stage(&mut self, stage: FrameStage) -> (skipped_start: Option<u64>)
        ensures
            final(self)@ == (HandlerState {
                control: Control {
                    pipeline: old(self)@.control.pipeline.after(stage),
                    ..old(self)@.control
                },
                ..old(self)@
            }),
            skipped_start == old(self)@.control.pipeline.skipped_start(stage),
    {
        self.automation.handle_frame_stage(stage)
    }

    pub fn handle_led_event(&mut self, event: LedEvent) -> (completed: Option<(u64, u64)>)
        ensures
            final(self)@ == (HandlerState {
                control: old(self)@.control.led_reported(event),
                ..old(self)@
            }),
            completed == old(self)@.control.frame_confirmed(event),
    {
        self.automation.handle_led_event(event)
    }

    /// Takes in a camera status: whoever waits for one is answered, and every client
    /// is told, in no particular order.
    pub fn handle_kinect_event(&mut self, event: KinectEvent)
        ensures
            event matches KinectEvent::Status(status) && kinect_reported(
                old(self)@,
                final(self)@,
                status@,
            ),
    {
        let clients = self.automation.clients.iter();
        self.kinect.handle_event(event, &clients, &mut self.automation.messenger);
        proof {
            let status = event->Status_0@;
            let before = old(self)@;
            assert(self@.control.sent =~= before.control.sent + (kinect::answers(
                before.kinect.pending,
                status,
            ) + messaging::broadcast_to(clients@, ClientDataModel::KinectStatus(status))));
            assert(kinect_reported_to(before, self@, status, clients@));
        }
    }

    /// Nobody took the command for the camera that was sent for this request.
    pub fn kinect_command_refused(&mut self, addr: ClientAddr, id: MessageId)
        ensures
            final(self)@ == (HandlerState {
                kinect: old(self)@.kinect.forgotten(addr, id),
                ..old(self)@
            }).sending(
                seq![
                    messaging::reply(
                        addr,
                        id,
                        ClientDataModel::KinectStatus(
                            messaging::unavailable("kinect command channel closed"@),
                        ),
                    ),
                ],
            ),
    {
        let ghost before = self@;
        self.kinect.command_refused(addr, id, &mut self.automation.messenger);
        assert(self@.control.sent =~= before.control.sent + seq![
            messaging::reply(
                addr,
                id,
                ClientDataModel::KinectStatus(
                    messaging::unavailable("kinect command channel closed"@),
                ),
            ),
        ]);
    }

    pub fn on_idle_timeout(&mut self)
        ensures
            final(self)@ == (HandlerState { idle: old(self)@.idle.timed_out(), ..old(self)@ }),
    {
        self.idle_state.on_timeout();
        self.sync_effective_idle();
    }

    /// Stops the idle timer before the daemon ends.
    pub fn shut_down(&mut self)
        ensures
            final(self)@ == (HandlerState {
                idle: IdleState { timer_running: false, ..old(self)@.idle },
                ..old(self)@
            }).sending(old(self)@.idle.cancel_messages()),
    {
        self.idle_state.cancel_timer(&mut self.automation.messenger);
    }

    pub fn handle_client_command(&mut self, req: ClientReq, now: u64)
        ensures
            final(self)@ == old(self)@.requested(req, now),
    {
        match req.data {
            ClientReqData::Message(msg) => {
                let _ = self.automation.register_client(req.addr);
                self.handle_client_message(req.addr, msg, now);
            },
            ClientReqData::Disconnected => {
                let _ = self.handle_client_disconnect(req.addr);
            },
        }
    }

    pub fn handle_client_disconnect(&mut self, addr: ClientAddr) -> (outcome: DisconnectOutcome)
        ensures
            final(self)@ == (HandlerState {
                control: old(self)@.control.disconnected(old(self)@.idle.is_idle(), addr),
                ..old(self)@
            }),
            outcome == old(self)@.control.sessions.remove_outcome(addr),
    {
        let idle = self.idle_state.effective_idle();
        self.automation.handle_client_disconnect(idle, addr)
    }

    pub fn handle_client_message(&mut self, addr: ClientAddr, msg: MessageToServer, now: u64)
        ensures
            final(self)@ == old(self)@.messaged(addr, msg, now),
    {
        let ghost before = self@;
        let idle = self.idle_state.effective_idle();
        match msg.data {
            MessageToServerData::Led(command) => {
                self.automation.handle_client_led(addr, msg.id, command);
            },
            MessageToServerData::SetManualMode { enabled } => {
                self.automation.handle_manual_mode_request(idle, addr, msg.id, enabled);
            },
            MessageToServerData::GetManualMode => {
                self.automation.handle_manual_query(addr, msg.id);
            },
            MessageToServerData::SetIdleInhibit { enabled, timeout_ms } => {
                let _ = self.handle_idle_inhibit_request(addr, msg.id, enabled, timeout_ms, now);
            },
            MessageToServerData::GetIdleInhibit => {
                self.answer_inhibit(addr, msg.id, now);
            },
            MessageToServerData::Kinect(command) => {
                self.kinect.handle_command(
                    addr,
                    msg.id,
                    command,
                    &mut self.automation.messenger,
                );
                assert(self@ =~= before.kinect_requested(addr, msg.id));
            },
        }
    }

    /// Takes in a request about the idle inhibition; whether it changed anything.
    pub fn handle_idle_inhibit_request(
        &mut self,
        addr: ClientAddr,
        id: MessageId,
        enabled: bool,
        timeout_ms: Option<u64>,
        now: u64,
    ) -> (changed: bool)
        ensures
            final(self)@ == old(self)@.inhibit_requested(addr, id, enabled, timeout_ms, now),
            changed == old(self)@.idle.inhibit_changes(enabled, timeout_ms),
    {
        let changed = self.idle_state.apply_inhibit(
            enabled,
            timeout_ms,
            now,
            &mut self.automation.messenger,
        );
        self.sync_effective_idle();
        self.answer_inhibit(addr, id, now);
        changed
    }

    fn answer_inhibit(&mut self, addr: ClientAddr, id: MessageId, now: u64)
        ensures
            final(self)@ == old(self)@.inhibit_answered(addr, id, now),
    {
        let ghost before = self@;
        let enabled = self.idle_state.idle_inhibit;
        let remaining = self.idle_state.remaining_inhibit_ms(now);
        self.automation.messenger.send_idle_inhibit_state(addr, id, enabled, remaining);
        self.automation.messenger.ack(addr, id);
        assert(self@.control.sent =~= before.inhibit_answered(addr, id, now).control.sent);
    }

    /// Acts on the edges of the idle state. What was remembered is computed from the
    /// same fields as what is, so the two never differ and no edge is ever seen.
    pub fn sync_effective_idle(&mut self)
        ensures
            *final(self) == *old(self),
    {
        let was_idle = self.effective_idle_cached();
        let is_idle = self.idle_state.effective_idle();
        if is_idle && !was_idle {
            self.automation.on_enter_idle();
        } else if !is_idle && was_idle {
            self.automation.on_exit_idle();
        }
    }

    pub fn effective_idle_cached(&self) -> (idle: bool)
        ensures
            idle == self@.idle.is_idle(),
    {
        self.idle_state.seat_idle && !self.idle_state.idle_inhibit || (!self.idle_state.seat_idle
            && self.idle_state.effective_idle())
    }
}

/// How the handler takes in a camera status when it tells the clients in this order.
pub open spec fn kinect_reported_to(
    before: HandlerState,
    after: HandlerState,
    status: KinectStatusModel,
    clients: Seq<ClientAddr>,
) -> bool {
    &&& clients.no_duplicates()
    &&& clients.to_set() == before.control.sessions.clients
    &&& after == (HandlerState {
        kinect: KinectRequests { last_status: Some(status), pending: Seq::empty() },
        ..before
    }).sending(
        kinect::answers(before.kinect.pending, status) + messaging::broadcast_to(
            clients,
            ClientDataModel::KinectStatus(status),
        ),
    )
}

/// How the handler takes in a camera status: every connected client is told once.
pub open spec fn kinect_reported(
    before: HandlerState,
    after: HandlerState,
    status: KinectStatusModel,
) -> bool {
    exists|clients: Seq<ClientAddr>| kinect_reported_to(before, after, status, clients)
}

/// Whether a message is an answer to this request.
pub open spec fn answers(message: Message, addr: ClientAddr, id: MessageId) -> bool {
    message matches Message::Reply { addr: a, id: i, data } && a == addr && i == id
}

/// Every request is answered: an answer with the request's identifier goes to the
/// client, or a request to the camera on its behalf. Requests about modes end with
/// an acknowledgement.
pub proof fn every_request_is_answered(
    state: HandlerState,
    addr: ClientAddr,
    msg: MessageToServer,
    now: u64,
)
    ensures
        state.messaged(addr, msg, now).control.sent.len() > state.control.sent.len(),
        !(msg.data is Led) && !(msg.data is Kinect) ==> state.messaged(
            addr,
            msg,
            now,
        ).control.sent.last() == messaging::ack(addr, msg.id),
        exists|i: int|
            #![trigger state.messaged(addr, msg, now).control.sent[i]]
            state.control.sent.len() <= i < state.messaged(addr, msg, now).control.sent.len() && (
            answers(state.messaged(addr, msg, now).control.sent[i], addr, msg.id)
                || state.messaged(addr, msg, now).control.sent[i] == (Message::Kinect {
                command: KinectCommand::RequestStatus,
                addr,
                id: msg.id,
            })),
{
    let sent = state.messaged(addr, msg, now).control.sent;
    match msg.data {
        MessageToServerData::Led(command) => {
            assert(sent[state.control.sent.len() as int] == state.control.led_requested(
                addr,
                msg.id,
                command,
            ).sent[state.control.sent.len() as int]);
        },
        _ => {
            assert(sent[sent.len() - 1] == sent.last());
        },
    }
}

/// Nothing that was sent before is taken back or changed by what a client does.
pub proof fn sent_messages_stay(state: HandlerState, req: ClientReq, now: u64, i: int)
    requires
        0 <= i < state.control.sent.len(),
    ensures
        state.requested(req, now).control.sent[i] == state.control.sent[i],
{
}

/// As long as the manual mode lasts, whatever a client does, all that reaches the LEDs is
/// the command that the client sent.
pub proof fn manual_leds_obey_clients_only(state: HandlerState, req: ClientReq, now: u64, i: int)
    requires
        state.control.sessions.manual,
        state.requested(req, now).control.sessions.manual,
        state.control.sent.len() <= i < state.requested(req, now).control.sent.len(),
        state.requested(req, now).control.sent[i] is Led,
    ensures
        req.data matches ClientReqData::Message(msg) && msg.data matches MessageToServerData::Led(
            command,
        ) && state.requested(req, now).control.sent[i] == Message::Led(command),
{
}

/// A client's command reaches the LEDs unchanged in manual mode, behind its
/// acknowledgement; otherwise it is refused and nothing reaches them.
pub proof fn commands_reach_leds_in_manual_mode(
    state: HandlerState,
    addr: ClientAddr,
    id: MessageId,
    command: LedCommand,
    now: u64,
)
    ensures
        ({
            let msg = MessageToServer { id, data: MessageToServerData::Led(command) };
            let after = state.messaged(addr, msg, now);
            &&& state.control.sessions.manual ==> after.control.sent == state.control.sent.push(
                messaging::reply(addr, id, ClientDataModel::Ack),
            ).push(Message::Led(command))
            &&& !state.control.sessions.manual ==> after.control.sent == state.control.sent.push(
                messaging::reply(
                    addr,
                    id,
                    ClientDataModel::Nack { reason: "manual_mode_disabled"@ },
                ),
            )
            &&& after.control.sessions == state.control.sessions
            &&& after.idle == state.idle
            &&& after.kinect == state.kinect
        }),
{
    let msg = MessageToServer { id, data: MessageToServerData::Led(command) };
    let after = state.messaged(addr, msg, now).control;
    if state.control.sessions.manual {
        assert(after.sent =~= state.control.sent.push(
            messaging::reply(addr, id, ClientDataModel::Ack),
        ).push(Message::Led(command)));
    }
}

/// The last client leaving an idle seat lets the LEDs fade out and stay dark; at a seat in
/// use the screen takes over again. Giving the manual mode up does the same.
pub proof fn handing_back_leaves_seat_as_it_is(
    state: HandlerState,
    addr: ClientAddr,
    id: MessageId,
    now: u64,
)
    requires
        state.control.sessions.manual,
        state.control.sessions.clients == set![addr],
    ensures
        ({
            let away = state.idle.seat_idle && !state.idle.idle_inhibit;
            let left = state.requested(
                ClientReq { addr, data: ClientReqData::Disconnected },
                now,
            );
            let gave_up = state.messaged(
                addr,
                MessageToServer {
                    id,
                    data: MessageToServerData::SetManualMode { enabled: false },
                },
                now,
            );
            &&& left.idle == state.idle
            &&& !left.control.sessions.manual
            &&& !gave_up.control.sessions.manual
            &&& left.control.pending_fade_in == away
            &&& gave_up.control.pending_fade_in == away
            &&& left.control.sent.last() == (if away {
                Message::Led(LedCommand::FadeOut { duration_ms: None })
            } else {
                Message::ComputeDone
            })
            &&& gave_up.control.sent == left.control.sent.push(
                messaging::reply(addr, id, ClientDataModel::ManualMode { enabled: false }),
            ).push(messaging::reply(addr, id, ClientDataModel::Ack))
        }),
{
    automation::leaving_hands_back_like_giving_up(state.control, state.idle.is_idle(), addr, id);
}

/// A client that takes over the LEDs while nobody uses the seat is remembered as having
/// done so, and nothing is sent to the LEDs.
pub proof fn taking_over_is_remembered(
    state: HandlerState,
    addr: ClientAddr,
    id: MessageId,
    now: u64,
)
    requires
        !state.control.sessions.manual,
    ensures
        ({
            let taken = state.messaged(
                addr,
                MessageToServer { id, data: MessageToServerData::SetManualMode { enabled: true } },
                now,
            );
            &&& taken.control.manual_started_while_idle == (state.idle.seat_idle
                && !state.idle.idle_inhibit)
            &&& automation::leaves_leds_alone(state.control.sent, taken.control.sent)
            &&& taken.control.sessions.manual
            &&& taken.control.manual_flag
        }),
{
    let taken = state.messaged(
        addr,
        MessageToServer { id, data: MessageToServerData::SetManualMode { enabled: true } },
        now,
    );
    assert(taken.control.sent.take(state.control.sent.len() as int) =~= state.control.sent);
}

/// The answer to a request about the inhibition says what now holds: with a time, how much
/// of it is left, which is all of it right after it was asked for. The inhibition touches
/// neither the clients nor the LEDs.
pub proof fn inhibition_is_answered_truly(
    state: HandlerState,
    addr: ClientAddr,
    id: MessageId,
    enabled: bool,
    timeout_ms: Option<u64>,
    now: u64,
)
    ensures
        ({
            let after = state.messaged(
                addr,
                MessageToServer {
                    id,
                    data: MessageToServerData::SetIdleInhibit { enabled, timeout_ms },
                },
                now,
            );
            let n = after.control.sent.len();
            &&& n >= 2
            &&& after.control.sent[n - 2] == messaging::reply(
                addr,
                id,
                ClientDataModel::IdleInhibit {
                    enabled,
                    timeout_ms: if enabled {
                        timeout_ms
                    } else {
                        None
                    },
                },
            )
            &&& after.control.sent[n - 1] == messaging::reply(addr, id, ClientDataModel::Ack)
            &&& after.idle.idle_inhibit == enabled
            &&& after.idle.seat_idle == state.idle.seat_idle
            &&& after.control == (Control { sent: after.control.sent, ..state.control })
            &&& automation::leaves_leds_alone(state.control.sent, after.control.sent)
        }),
{
    let after = state.messaged(
        addr,
        MessageToServer { id, data: MessageToServerData::SetIdleInhibit { enabled, timeout_ms } },
        now,
    );
    if let Some(ms) = timeout_ms {
        idle::inhibition_counts_down(state.idle, ms, now, now);
    }
    assert(after.control.sent.take(state.control.sent.len() as int) =~= state.control.sent);
}

/// A frame is shown exactly when somebody uses the seat, or idling is inhibited, and no
/// client controls the LEDs; whether somebody uses it is what the screen said last.
pub proof fn seat_decides_over_frames(state: HandlerState, event: IdleEvent)
    ensures
        ({
            let after = state.seat_changed(event);
            &&& after.control == state.control
            &&& after.idle.seat_idle == (event == IdleEvent::Idle)
            &&& after.control.shows_frames(after.idle.is_idle()) == (!state.control.sessions.manual
                && (event == IdleEvent::Active || state.idle.idle_inhibit))
        }),
{
}

/// A request for the camera's status is answered at once with the last status; where there
/// is none yet the camera is asked, and the request waits behind those before it. The next
/// status answers every request that waits, in order, and then each client is told once.
pub proof fn camera_requests_are_answered(
    state: HandlerState,
    addr: ClientAddr,
    id: MessageId,
    after: HandlerState,
    status: KinectStatusModel,
)
    requires
        kinect_reported(state.kinect_requested(addr, id), after, status),
    ensures
        ({
            let asked = state.kinect_requested(addr, id);
            let n = asked.control.sent.len() as int;
            let waiting = state.kinect.pending.len() as int;
            &&& state.kinect.last_status matches Some(known) ==> asked.control.sent
                == state.control.sent.push(
                Message::Reply { addr, id, data: ClientDataModel::KinectStatus(known) },
            ) && asked.kinect == state.kinect
            &&& state.kinect.last_status is None ==> asked.control.sent == state.control.sent.push(
                Message::Kinect { command: KinectCommand::RequestStatus, addr, id },
            ) && asked.kinect.pending == state.kinect.pending.push((addr, id))
                && after.control.sent[n + waiting] == (Message::Reply {
                addr,
                id,
                data: ClientDataModel::KinectStatus(status),
            })
            &&& after.kinect.last_status == Some(status)
            &&& after.kinect.pending.len() == 0
            &&& forall|i: int|
                0 <= i < state.kinect.pending.len() ==> #[trigger] after.control.sent[n + i] == (
                Message::Reply {
                    addr: state.kinect.pending[i].0,
                    id: state.kinect.pending[i].1,
                    data: ClientDataModel::KinectStatus(status),
                })
            &&& forall|i: int|
                n + asked.kinect.pending.len() <= i < after.control.sent.len() ==> {
                    &&& #[trigger] after.control.sent[i] matches Message::Reply {
                        addr: to,
                        id: nil,
                        data,
                    }
                    &&& state.control.sessions.clients.contains(to)
                    &&& nil == 0
                    &&& data == ClientDataModel::KinectStatus(status)
                }
        }),
{
    let asked = state.kinect_requested(addr, id);
    let clients = choose|clients: Seq<ClientAddr>|
        kinect_reported_to(asked, after, status, clients);
    let n = asked.control.sent.len() as int;
    let told = kinect::answers(asked.kinect.pending, status) + messaging::broadcast_to(
        clients,
        ClientDataModel::KinectStatus(status),
    );
    assert(after.control.sent == asked.control.sent + told);
    assert forall|i: int| 0 <= i < state.kinect.pending.len() implies #[trigger] after.control.sent[n
        + i] == (Message::Reply {
        addr: state.kinect.pending[i].0,
        id: state.kinect.pending[i].1,
        data: ClientDataModel::KinectStatus(status),
    }) by {
        assert(after.control.sent[n + i] == told[i]);
    }
    assert forall|i: int| n + asked.kinect.pending.len() <= i < after.control.sent.len() implies {
        &&& #[trigger] after.control.sent[i] matches Message::Reply { addr: to, id: nil, data }
        &&& state.control.sessions.clients.contains(to)
        &&& nil == 0
        &&& data == ClientDataModel::KinectStatus(status)
    } by {
        let k = i - n - asked.kinect.pending.len();
        assert(after.control.sent[i] == told[i - n]);
        assert(clients.to_set().contains(clients[k]));
    }
}

/// A frame that the screen has ready is computed exactly when somebody uses the seat, or
/// idling is inhibited, and no client controls the LEDs; it has the next number and is faded
/// in if that is due. Nothing is sent for it, and an idle seat or a client's control changes
/// nothing.
pub proof fn ready_frame_is_computed_for_the_screen(state: HandlerState)
    ensures
        ({
            let (after, request) = state.frame_ready();
            let away = state.idle.seat_idle && !state.idle.idle_inhibit;
            &&& request is Some <==> !away && !state.control.sessions.manual
            &&& request matches Some(frame) ==> frame.frame_id == state.control.pipeline.next_id
                && frame.fade_in == state.control.pending_fade_in
            &&& request is None ==> after == state
            &&& after.control.sent == state.control.sent
            &&& after.idle == state.idle
            &&& after.kinect == state.kinect
        }),
{
}

/// What is to be sent is taken once, and nothing else changes by that.
pub proof fn messages_are_taken_once(state: HandlerState, messages: Seq<Message>)
    ensures
        state.taken().control.sent.len() == 0,
        state.taken().sending(state.control.sent) == state,
        state.taken().sending(messages).control.sent == messages,
{
    assert(Seq::<Message>::empty() + state.control.sent =~= state.control.sent);
    assert(Seq::<Message>::empty() + messages =~= messages);
}

} // verus!
